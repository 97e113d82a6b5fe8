//! Values of the virtual machine, as far as this library handles them.

use vstd::prelude::*;
use vstd::arithmetic::div_mod::{
    lemma_add_mod_noop, lemma_mod_add_multiples_vanish, lemma_mod_twice, lemma_mul_mod_noop_left, lemma_sub_mod_noop,
};
use crate::avm::Class;
use crate::text_format::TextFormat;

verus! {

/// A value of the scripting language.
#[derive(Debug)]
pub enum Value {
    Undefined,
    Null,
    Bool(bool),
    Integer(i32),
    String(String),
    /// A class object.
    Class(Class),
    /// A `flash.text.TextFormat` object.
    TextFormat(TextFormat),
}

impl Value {
    /// A second value equal to this one.
    pub fn copied(&self) -> (r: Value)
        ensures
            r == *self,
    {
        match self {
            Value::Undefined => Value::Undefined,
            Value::Null => Value::Null,
            Value::Bool(b) => Value::Bool(*b),
            Value::Integer(n) => Value::Integer(*n),
            Value::String(s) => Value::String(s.clone()),
            Value::Class(c) => Value::Class(*c),
            Value::TextFormat(f) => Value::TextFormat(*f),
        }
    }
}


/// The argument at `i`, `undefined` past the end.
pub open spec fn arg_at(args: Seq<Value>, i: int) -> Value {
    if 0 <= i < args.len() {
        args[i]
    } else {
        Value::Undefined
    }
}

/// A copy of the argument at `i`, `undefined` past the end.
pub fn arg(args: &[Value], i: usize) -> (r: Value)
    ensures
        r == arg_at(args@, i as int),
{
    if i < args.len() {
        args[i].copied()
    } else {
        Value::Undefined
    }
}

/// The truth value of a value.
pub open spec fn truth_of(v: Value) -> bool {
    match v {
        Value::Undefined => false,
        Value::Null => false,
        Value::Bool(b) => b,
        Value::Integer(n) => n != 0,
        Value::String(s) => s@.len() > 0,
        Value::Class(_) => true,
        Value::TextFormat(_) => true,
    }
}

/// The character of the decimal digit `d`.
pub open spec fn digit_char(d: int) -> char {
    if d == 0 {
        '0'
    } else if d == 1 {
        '1'
    } else if d == 2 {
        '2'
    } else if d == 3 {
        '3'
    } else if d == 4 {
        '4'
    } else if d == 5 {
        '5'
    } else if d == 6 {
        '6'
    } else if d == 7 {
        '7'
    } else if d == 8 {
        '8'
    } else {
        '9'
    }
}

/// The decimal digits of `n`, most significant first, without leading zeros.
pub open spec fn decimal_digits(n: nat) -> Seq<char>
    decreases n,
{
    if n < 10 {
        seq![digit_char(n as int)]
    } else {
        decimal_digits(n / 10).push(digit_char((n % 10) as int))
    }
}

/// The decimal text of `n`.
pub open spec fn decimal_text(n: int) -> Seq<char> {
    if n < 0 {
        seq!['-'] + decimal_digits((-n) as nat)
    } else {
        decimal_digits(n as nat)
    }
}

/// The text of a value.
pub open spec fn text_of(v: Value) -> Seq<char> {
    match v {
        Value::Undefined => "undefined"@,
        Value::Null => "null"@,
        Value::Bool(b) => if b {
            "true"@
        } else {
            "false"@
        },
        Value::Integer(n) => decimal_text(n as int),
        Value::String(s) => s@,
        Value::Class(_) => "[object Class]"@,
        Value::TextFormat(_) => "[object TextFormat]"@,
    }
}

pub open spec fn is_digit(c: char) -> bool {
    '0' <= c <= '9'
}

/// The value of a run of decimal digits.
pub open spec fn digits_value(s: Seq<char>) -> int
    decreases s.len(),
{
    if s.len() == 0 {
        0
    } else {
        digits_value(s.drop_last()) * 10 + (s.last() as int - '0' as int)
    }
}

/// The number of sign characters that a numeric text begins with.
pub open spec fn sign_len(s: Seq<char>) -> int {
    if s.len() > 0 && (s[0] == '-' || s[0] == '+') {
        1
    } else {
        0
    }
}

/// The integer that a text of an optional sign and one or more decimal digits
/// stands for; `None` for any other text, which reads as not a number.
pub open spec fn text_integer(s: Seq<char>) -> Option<int> {
    let body = s.subrange(sign_len(s), s.len() as int);
    if body.len() > 0 && forall|k: int| 0 <= k < body.len() ==> is_digit(#[trigger] body[k]) {
        Some(
            if s[0] == '-' {
                -digits_value(body)
            } else {
                digits_value(body)
            },
        )
    } else {
        None
    }
}

/// The integer value of a value, where not a number counts as zero.
pub open spec fn integer_of(v: Value) -> int {
    match v {
        Value::Bool(b) => if b {
            1
        } else {
            0
        },
        Value::Integer(n) => n as int,
        Value::String(s) => match text_integer(s@) {
            Some(n) => n,
            None => 0,
        },
        _ => 0,
    }
}

/// `n` taken modulo 2^32.
pub open spec fn wrap_u32(n: int) -> u32 {
    (n % 4294967296) as u32
}

/// The signed 32-bit integer with the same bits as `u`.
pub open spec fn signed_of(u: u32) -> i32 {
    if u < 2147483648 {
        u as i32
    } else {
        (u - 4294967296) as i32
    }
}

/// The unsigned 32-bit integer that a value converts to.
pub open spec fn u32_of(v: Value) -> u32 {
    wrap_u32(integer_of(v))
}

/// The signed 32-bit integer that a value converts to.
pub open spec fn i32_of(v: Value) -> i32 {
    signed_of(u32_of(v))
}

/// The text of one decimal digit.
fn digit_text(d: u32) -> (r: &'static str)
    requires
        d < 10,
    ensures
        r@ == seq![digit_char(d as int)],
{
    proof {
        reveal_strlit("0");
        reveal_strlit("1");
        reveal_strlit("2");
        reveal_strlit("3");
        reveal_strlit("4");
        reveal_strlit("5");
        reveal_strlit("6");
        reveal_strlit("7");
        reveal_strlit("8");
        reveal_strlit("9");
    }
    if d == 0 {
        "0"
    } else if d == 1 {
        "1"
    } else if d == 2 {
        "2"
    } else if d == 3 {
        "3"
    } else if d == 4 {
        "4"
    } else if d == 5 {
        "5"
    } else if d == 6 {
        "6"
    } else if d == 7 {
        "7"
    } else if d == 8 {
        "8"
    } else {
        "9"
    }
}

/// Appends the decimal digits of `n` to `out`.
fn append_decimal(n: u32, out: &mut String)
    ensures
        final(out)@ == old(out)@ + decimal_digits(n as nat),
    decreases n,
{
    if n >= 10 {
        append_decimal(n / 10, out);
    }
    let ghost mid = out@;
    out.append(digit_text(n % 10));
    proof {
        if n >= 10 {
            assert(out@ =~= old(out)@ + decimal_digits(n as nat));
        } else {
            assert(out@ =~= old(out)@ + decimal_digits(n as nat));
        }
    }
}

/// The decimal text of `n`.
pub fn integer_to_string(n: i32) -> (r: String)
    ensures
        r@ == decimal_text(n as int),
{
    let mut out = String::new();
    if n < 0 {
        proof {
            reveal_strlit("-");
        }
        out.append("-");
        let m: i64 = -(n as i64);
        append_decimal(m as u32, &mut out);
        assert(out@ =~= decimal_text(n as int));
    } else {
        append_decimal(n as u32, &mut out);
        assert(out@ =~= decimal_text(n as int));
    }
    out
}

/// The unsigned 32-bit integer that the text `s` converts to.
fn text_to_u32(s: &str) -> (r: u32)
    ensures
        r == wrap_u32(
            match text_integer(s@) {
                Some(n) => n,
                None => 0,
            },
        ),
{
    let len = s.unicode_len();
    if len == 0 {
        return 0;
    }
    let first = s.get_char(0);
    let start: usize = if first == '-' || first == '+' {
        1
    } else {
        0
    };
    let ghost body = s@.subrange(start as int, len as int);
    if start == len {
        return 0;
    }
    let mut acc: u64 = 0;
    let mut i: usize = start;
    while i < len
        invariant
            len == s@.len(),
            start <= i <= len,
            start == sign_len(s@),
            body == s@.subrange(start as int, len as int),
            acc < 4294967296,
            acc == digits_value(s@.subrange(start as int, i as int)) % 4294967296,
            forall|k: int| start <= k < i ==> is_digit(#[trigger] s@[k]),
        decreases len - i,
    {
        let c = s.get_char(i);
        if !('0' <= c && c <= '9') {
            assert(body[i - start] == c);
            return 0;
        }
        let d: u64 = (c as u64) - ('0' as u64);
        proof {
            let x = digits_value(s@.subrange(start as int, i as int));
            assert(s@.subrange(start as int, i + 1).drop_last() =~= s@.subrange(start as int, i as int));
            assert(digits_value(s@.subrange(start as int, i + 1)) == x * 10 + d);
            lemma_mul_mod_noop_left(x, 10, 4294967296);
            lemma_add_mod_noop(x * 10, d as int, 4294967296);
            lemma_add_mod_noop((x % 4294967296) * 10, d as int, 4294967296);
            lemma_mod_twice((x % 4294967296) * 10, 4294967296);
        }
        acc = (acc * 10 + d) % 4294967296;
        i = i + 1;
    }
    proof {
        assert(s@.subrange(start as int, i as int) =~= body);
        assert forall|k: int| 0 <= k < body.len() implies is_digit(#[trigger] body[k]) by {
            assert(body[k] == s@[k + start]);
        }
    }
    if first == '-' {
        proof {
            let v = digits_value(body);
            lemma_sub_mod_noop(4294967296, v, 4294967296);
            lemma_mod_add_multiples_vanish(-v, 4294967296);
            lemma_mod_add_multiples_vanish(-(v % 4294967296), 4294967296);
        }
        ((4294967296 - acc) % 4294967296) as u32
    } else {
        acc as u32
    }
}

/// The unsigned 32-bit integer that `v` converts to.
pub fn coerce_to_u32(v: &Value) -> (r: u32)
    ensures
        r == u32_of(*v),
{
    match v {
        Value::Bool(b) => if *b {
            1
        } else {
            0
        },
        Value::Integer(n) => {
            if *n >= 0 {
                *n as u32
            } else {
                (4294967296i64 + *n as i64) as u32
            }
        },
        Value::String(s) => text_to_u32(s.as_str()),
        _ => 0,
    }
}

/// The signed 32-bit integer that `v` converts to.
pub fn coerce_to_i32(v: &Value) -> (r: i32)
    ensures
        r == i32_of(*v),
{
    let u = coerce_to_u32(v);
    if u < 2147483648 {
        u as i32
    } else {
        (u as i64 - 4294967296) as i32
    }
}

/// The truth value of `v`.
pub fn coerce_to_boolean(v: &Value) -> (r: bool)
    ensures
        r == truth_of(*v),
{
    match v {
        Value::Undefined => false,
        Value::Null => false,
        Value::Bool(b) => *b,
        Value::Integer(n) => *n != 0,
        Value::String(s) => s.unicode_len() > 0,
        Value::Class(_) => true,
        Value::TextFormat(_) => true,
    }
}

/// The text of `v`.
pub fn coerce_to_string(v: &Value) -> (r: String)
    ensures
        r@ == text_of(*v),
{
    match v {
        Value::Undefined => String::from_str("undefined"),
        Value::Null => String::from_str("null"),
        Value::Bool(b) => if *b {
            String::from_str("true")
        } else {
            String::from_str("false")
        },
        Value::Integer(n) => integer_to_string(*n),
        Value::String(s) => s.clone(),
        Value::Class(_) => String::from_str("[object Class]"),
        Value::TextFormat(_) => String::from_str("[object TextFormat]"),
    }
}

} // verus!
