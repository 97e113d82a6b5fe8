//! The native accessors of the `flash.text.TextField` class. Each takes the
//! object it is called on and the arguments of the call, and gives the value
//! of the call; on an object that is not a text field a getter gives
//! `undefined` and a setter does nothing.

use vstd::prelude::*;
use crate::color::{color_from_rgb, color_to_rgb, rgb_value, rgba_of};
use crate::edit_text::{
    AutoSizeMode, EditText, GridFit, MAX_TEXT_LENGTH, TextSelection, clamp_range,
    clamp_selection_to, repeated, same_settings,
};
use crate::error::Error;
use crate::text_format::{TextFormat, merge_format, range_format};
use crate::value::{
    Value, arg, arg_at, coerce_to_boolean, coerce_to_i32, coerce_to_string, coerce_to_u32, i32_of,
    text_of, truth_of, u32_of,
};

verus! {

/// The object that an accessor is called on.
pub enum Object {
    EditText(EditText),
    /// An object that is not a text field.
    Other,
}

impl Object {
    pub open spec fn wf(&self) -> bool {
        match self {
            Object::EditText(t) => t.wf(),
            Object::Other => true,
        }
    }
}

/// What a getter gives: `f` of the text field, or `undefined` where the
/// object is not a text field.
pub open spec fn read_field(this: Object, f: spec_fn(EditText) -> Value) -> Result<Value, Error> {
    match this {
        Object::EditText(t) => Ok(f(t)),
        Object::Other => Ok(Value::Undefined),
    }
}

/// What a setter leaves: the text field changed by `f`; any other object as it was.
pub open spec fn update_field(this: Object, f: spec_fn(EditText) -> EditText) -> Object {
    match this {
        Object::EditText(t) => Object::EditText(f(t)),
        Object::Other => Object::Other,
    }
}

pub fn get_background(this: &Object, _args: &[Value]) -> (r: Result<Value, Error>)
    ensures
        r == read_field(*this, |t: EditText| Value::Bool(t.has_background)),
{
    match this {
        Object::EditText(t) => Ok(Value::Bool(t.has_background)),
        Object::Other => Ok(Value::Undefined),
    }
}

pub fn set_background(this: &mut Object, args: &[Value]) -> (r: Result<Value, Error>)
    ensures
        r == Ok::<Value, Error>(Value::Undefined),
        *final(this) == update_field(
            *old(this),
            |t: EditText| EditText { has_background: truth_of(arg_at(args@, 0)), ..t },
        ),
{
    let v = coerce_to_boolean(&arg(args, 0));
    if let Object::EditText(t) = this {
        t.has_background = v;
    }
    Ok(Value::Undefined)
}

/// What a getter of a text gives: a string with the text `f` of the text
/// field, or `undefined` where the object is not a text field.
pub open spec fn read_text(this: Object, r: Result<Value, Error>, f: spec_fn(EditText) -> Seq<char>) -> bool {
    match this {
        Object::EditText(t) => r matches Ok(Value::String(s)) && s@ == f(t),
        Object::Other => r == Ok::<Value, Error>(Value::Undefined),
    }
}

/// Whether the string `s` is the text `lit`.
fn is_text(s: &String, lit: &str) -> (r: bool)
    ensures
        r == (s@ == lit@),
{
    *s == String::from_str(lit)
}

/// A 32-bit integer value for a count that fits one.
fn count_value(n: usize) -> (r: Value)
    requires
        n <= MAX_TEXT_LENGTH,
    ensures
        r == Value::Integer(n as i32),
{
    Value::Integer(n as i32)
}

pub fn get_always_show_selection(_this: &Object, _args: &[Value]) -> (r: Result<Value, Error>)
    ensures
        r == Ok::<Value, Error>(Value::Bool(false)),
{
    Ok(Value::Bool(false))
}

pub fn set_always_show_selection(_this: &mut Object, _args: &[Value]) -> (r: Result<Value, Error>)
    ensures
        r == Ok::<Value, Error>(Value::Undefined),
        *final(_this) == *old(_this),
{
    Ok(Value::Undefined)
}

/// The text of an automatic sizing mode.
pub open spec fn auto_size_text(m: AutoSizeMode) -> Seq<char> {
    match m {
        AutoSizeMode::Off => "none"@,
        AutoSizeMode::Left => "left"@,
        AutoSizeMode::Center => "center"@,
        AutoSizeMode::Right => "right"@,
    }
}

/// The automatic sizing mode that a text names; any unknown text turns it off.
pub open spec fn auto_size_named(s: Seq<char>) -> AutoSizeMode {
    if s == "left"@ {
        AutoSizeMode::Left
    } else if s == "center"@ {
        AutoSizeMode::Center
    } else if s == "right"@ {
        AutoSizeMode::Right
    } else {
        AutoSizeMode::Off
    }
}

pub fn get_auto_size(this: &Object, _args: &[Value]) -> (r: Result<Value, Error>)
    ensures
        read_text(*this, r, |t: EditText| auto_size_text(t.autosize)),
{
    match this {
        Object::EditText(t) => {
            let s = match t.autosize {
                AutoSizeMode::Off => "none",
                AutoSizeMode::Left => "left",
                AutoSizeMode::Center => "center",
                AutoSizeMode::Right => "right",
            };
            Ok(Value::String(String::from_str(s)))
        },
        Object::Other => Ok(Value::Undefined),
    }
}

pub fn set_auto_size(this: &mut Object, args: &[Value]) -> (r: Result<Value, Error>)
    ensures
        r == Ok::<Value, Error>(Value::Undefined),
        *final(this) == update_field(
            *old(this),
            |t: EditText| EditText { autosize: auto_size_named(text_of(arg_at(args@, 0))), ..t },
        ),
{
    if let Object::EditText(t) = this {
        let value = coerce_to_string(&arg(args, 0));
        t.autosize = if is_text(&value, "left") {
            AutoSizeMode::Left
        } else if is_text(&value, "center") {
            AutoSizeMode::Center
        } else if is_text(&value, "right") {
            AutoSizeMode::Right
        } else {
            AutoSizeMode::Off
        };
    }
    Ok(Value::Undefined)
}

pub fn get_background_color(this: &Object, _args: &[Value]) -> (r: Result<Value, Error>)
    ensures
        r == read_field(*this, |t: EditText| Value::Integer(rgb_value(t.background_color) as i32)),
{
    match this {
        Object::EditText(t) => Ok(Value::Integer(color_to_rgb(t.background_color) as i32)),
        Object::Other => Ok(Value::Undefined),
    }
}

pub fn set_background_color(this: &mut Object, args: &[Value]) -> (r: Result<Value, Error>)
    ensures
        r == Ok::<Value, Error>(Value::Undefined),
        *final(this) == update_field(
            *old(this),
            |t: EditText| EditText { background_color: rgba_of(u32_of(arg_at(args@, 0)), 255), ..t },
        ),
{
    if let Object::EditText(t) = this {
        let rgb = coerce_to_u32(&arg(args, 0));
        t.background_color = color_from_rgb(rgb, 255);
    }
    Ok(Value::Undefined)
}

pub fn get_border(this: &Object, _args: &[Value]) -> (r: Result<Value, Error>)
    ensures
        r == read_field(*this, |t: EditText| Value::Bool(t.has_border)),
{
    match this {
        Object::EditText(t) => Ok(Value::Bool(t.has_border)),
        Object::Other => Ok(Value::Undefined),
    }
}

pub fn set_border(this: &mut Object, args: &[Value]) -> (r: Result<Value, Error>)
    ensures
        r == Ok::<Value, Error>(Value::Undefined),
        *final(this) == update_field(
            *old(this),
            |t: EditText| EditText { has_border: truth_of(arg_at(args@, 0)), ..t },
        ),
{
    let v = coerce_to_boolean(&arg(args, 0));
    if let Object::EditText(t) = this {
        t.has_border = v;
    }
    Ok(Value::Undefined)
}

pub fn get_border_color(this: &Object, _args: &[Value]) -> (r: Result<Value, Error>)
    ensures
        r == read_field(*this, |t: EditText| Value::Integer(rgb_value(t.border_color) as i32)),
{
    match this {
        Object::EditText(t) => Ok(Value::Integer(color_to_rgb(t.border_color) as i32)),
        Object::Other => Ok(Value::Undefined),
    }
}

pub fn set_border_color(this: &mut Object, args: &[Value]) -> (r: Result<Value, Error>)
    ensures
        r == Ok::<Value, Error>(Value::Undefined),
        *final(this) == update_field(
            *old(this),
            |t: EditText| EditText { border_color: rgba_of(u32_of(arg_at(args@, 0)), 255), ..t },
        ),
{
    if let Object::EditText(t) = this {
        let rgb = coerce_to_u32(&arg(args, 0));
        t.border_color = color_from_rgb(rgb, 255);
    }
    Ok(Value::Undefined)
}

pub fn get_condense_white(_this: &Object, _args: &[Value]) -> (r: Result<Value, Error>)
    ensures
        r == Ok::<Value, Error>(Value::Bool(false)),
{
    Ok(Value::Bool(false))
}

pub fn set_condense_white(_this: &mut Object, _args: &[Value]) -> (r: Result<Value, Error>)
    ensures
        r == Ok::<Value, Error>(Value::Undefined),
        *final(_this) == *old(_this),
{
    Ok(Value::Undefined)
}

pub fn get_default_text_format(this: &Object, _args: &[Value]) -> (r: Result<Value, Error>)
    ensures
        r == read_field(*this, |t: EditText| Value::TextFormat(t.new_text_format)),
{
    match this {
        Object::EditText(t) => Ok(Value::TextFormat(t.new_text_format)),
        Object::Other => Ok(Value::Undefined),
    }
}

pub fn set_default_text_format(this: &mut Object, args: &[Value]) -> (r: Result<Value, Error>)
    ensures
        r == Ok::<Value, Error>(Value::Undefined),
        *final(this) == update_field(
            *old(this),
            |t: EditText|
                match arg_at(args@, 0) {
                    Value::TextFormat(f) => EditText { new_text_format: f, ..t },
                    _ => t,
                },
        ),
{
    if let Object::EditText(t) = this {
        if args.len() > 0 {
            if let Value::TextFormat(f) = &args[0] {
                t.new_text_format = *f;
            }
        }
    }
    Ok(Value::Undefined)
}

pub fn get_display_as_password(this: &Object, _args: &[Value]) -> (r: Result<Value, Error>)
    ensures
        r == read_field(*this, |t: EditText| Value::Bool(t.is_password)),
{
    match this {
        Object::EditText(t) => Ok(Value::Bool(t.is_password)),
        Object::Other => Ok(Value::Undefined),
    }
}

pub fn set_display_as_password(this: &mut Object, args: &[Value]) -> (r: Result<Value, Error>)
    ensures
        r == Ok::<Value, Error>(Value::Undefined),
        *final(this) == update_field(
            *old(this),
            |t: EditText| EditText { is_password: truth_of(arg_at(args@, 0)), ..t },
        ),
{
    let v = coerce_to_boolean(&arg(args, 0));
    if let Object::EditText(t) = this {
        t.is_password = v;
    }
    Ok(Value::Undefined)
}

pub fn get_embed_fonts(this: &Object, _args: &[Value]) -> (r: Result<Value, Error>)
    ensures
        r == read_field(*this, |t: EditText| Value::Bool(!t.is_device_font)),
{
    match this {
        Object::EditText(t) => Ok(Value::Bool(!t.is_device_font)),
        Object::Other => Ok(Value::Undefined),
    }
}

pub fn set_embed_fonts(this: &mut Object, args: &[Value]) -> (r: Result<Value, Error>)
    ensures
        r == Ok::<Value, Error>(Value::Undefined),
        *final(this) == update_field(
            *old(this),
            |t: EditText| EditText { is_device_font: !truth_of(arg_at(args@, 0)), ..t },
        ),
{
    let v = coerce_to_boolean(&arg(args, 0));
    if let Object::EditText(t) = this {
        t.is_device_font = !v;
    }
    Ok(Value::Undefined)
}

pub fn get_html_text(this: &Object, _args: &[Value]) -> (r: Result<Value, Error>)
    ensures
        read_text(*this, r, |t: EditText| t.html_text@),
{
    match this {
        Object::EditText(t) => Ok(Value::String(t.html_text.clone())),
        Object::Other => Ok(Value::Undefined),
    }
}

/// Sets the HTML text of the field and marks it as HTML.
pub fn set_html_text(this: &mut Object, args: &[Value]) -> (r: Result<Value, Error>)
    ensures
        r == Ok::<Value, Error>(Value::Undefined),
        match (*old(this), *final(this)) {
            (Object::EditText(a), Object::EditText(b)) => {
                &&& b.html_text@ == text_of(arg_at(args@, 0))
                &&& b == EditText { html_text: b.html_text, is_html: true, ..a }
            },
            (Object::Other, Object::Other) => true,
            _ => false,
        },
{
    if let Object::EditText(t) = this {
        let html = coerce_to_string(&arg(args, 0));
        t.is_html = true;
        t.html_text = html;
    }
    Ok(Value::Undefined)
}

pub fn get_length(this: &Object, _args: &[Value]) -> (r: Result<Value, Error>)
    requires
        this.wf(),
    ensures
        r == read_field(*this, |t: EditText| Value::Integer(t.text@.len() as i32)),
{
    match this {
        Object::EditText(t) => Ok(count_value(t.text_length())),
        Object::Other => Ok(Value::Undefined),
    }
}

pub fn get_multiline(this: &Object, _args: &[Value]) -> (r: Result<Value, Error>)
    ensures
        r == read_field(*this, |t: EditText| Value::Bool(t.is_multiline)),
{
    match this {
        Object::EditText(t) => Ok(Value::Bool(t.is_multiline)),
        Object::Other => Ok(Value::Undefined),
    }
}

pub fn set_multiline(this: &mut Object, args: &[Value]) -> (r: Result<Value, Error>)
    ensures
        r == Ok::<Value, Error>(Value::Undefined),
        *final(this) == update_field(
            *old(this),
            |t: EditText| EditText { is_multiline: truth_of(arg_at(args@, 0)), ..t },
        ),
{
    let v = coerce_to_boolean(&arg(args, 0));
    if let Object::EditText(t) = this {
        t.is_multiline = v;
    }
    Ok(Value::Undefined)
}

pub fn get_selectable(this: &Object, _args: &[Value]) -> (r: Result<Value, Error>)
    ensures
        r == read_field(*this, |t: EditText| Value::Bool(t.is_selectable)),
{
    match this {
        Object::EditText(t) => Ok(Value::Bool(t.is_selectable)),
        Object::Other => Ok(Value::Undefined),
    }
}

pub fn set_selectable(this: &mut Object, args: &[Value]) -> (r: Result<Value, Error>)
    ensures
        r == Ok::<Value, Error>(Value::Undefined),
        *final(this) == update_field(
            *old(this),
            |t: EditText| EditText { is_selectable: truth_of(arg_at(args@, 0)), ..t },
        ),
{
    let v = coerce_to_boolean(&arg(args, 0));
    if let Object::EditText(t) = this {
        t.is_selectable = v;
    }
    Ok(Value::Undefined)
}

pub fn get_text(this: &Object, _args: &[Value]) -> (r: Result<Value, Error>)
    ensures
        read_text(*this, r, |t: EditText| t.text@),
{
    match this {
        Object::EditText(t) => Ok(Value::String(t.text.clone())),
        Object::Other => Ok(Value::Undefined),
    }
}

/// Replaces the whole text by the text of the first argument, as plain
/// text: every character takes the new-text format.
pub fn set_text(this: &mut Object, args: &[Value]) -> (r: Result<Value, Error>)
    requires
        old(this).wf(),
        text_of(arg_at(args@, 0)).len() <= MAX_TEXT_LENGTH,
    ensures
        r == Ok::<Value, Error>(Value::Undefined),
        final(this).wf(),
        match (*old(this), *final(this)) {
            (Object::EditText(a), Object::EditText(b)) => {
                &&& b.text@ == text_of(arg_at(args@, 0))
                &&& b.formats@ == repeated(a.new_text_format, b.text@.len())
                &&& b.selection == clamp_selection_to(a.selection, b.text@.len())
                &&& same_settings(EditText { is_html: false, ..a }, b)
            },
            (Object::Other, Object::Other) => true,
            _ => false,
        },
{
    if let Object::EditText(t) = this {
        let text = coerce_to_string(&arg(args, 0));
        t.is_html = false;
        t.set_text(text);
    }
    Ok(Value::Undefined)
}

pub fn get_text_color(this: &Object, _args: &[Value]) -> (r: Result<Value, Error>)
    ensures
        r == read_field(
            *this,
            |t: EditText|
                match t.new_text_format.color {
                    Some(c) => Value::Integer(rgb_value(c) as i32),
                    None => Value::Integer(0),
                },
        ),
{
    match this {
        Object::EditText(t) => match t.new_text_format.color {
            Some(c) => Ok(Value::Integer(color_to_rgb(c) as i32)),
            None => Ok(Value::Integer(0)),
        },
        Object::Other => Ok(Value::Undefined),
    }
}

/// The format that setting the text color `c` applies: only the color set.
pub open spec fn color_format(c: u32) -> TextFormat {
    TextFormat { color: Some(rgba_of(c, 255)), bold: None, italic: None, underline: None }
}

/// Gives every character, and the new-text format, the color of the first
/// argument; the new-text format keeps no other field.
pub fn set_text_color(this: &mut Object, args: &[Value]) -> (r: Result<Value, Error>)
    requires
        old(this).wf(),
    ensures
        r == Ok::<Value, Error>(Value::Undefined),
        final(this).wf(),
        match (*old(this), *final(this)) {
            (Object::EditText(a), Object::EditText(b)) => {
                let f = color_format(u32_of(arg_at(args@, 0)));
                &&& b.text == a.text
                &&& b.selection == a.selection
                &&& b.formats@.len() == a.formats@.len()
                &&& forall|i: int|
                    0 <= i < a.formats@.len() ==> #[trigger] b.formats@[i] == merge_format(
                        a.formats@[i],
                        f,
                    )
                &&& same_settings(EditText { new_text_format: f, ..a }, b)
            },
            (Object::Other, Object::Other) => true,
            _ => false,
        },
{
    if let Object::EditText(t) = this {
        let c = coerce_to_u32(&arg(args, 0));
        let desired = TextFormat {
            color: Some(color_from_rgb(c, 255)),
            bold: None,
            italic: None,
            underline: None,
        };
        let len = t.text_length();
        t.set_text_format(0, len, desired);
        t.new_text_format = desired;
    }
    Ok(Value::Undefined)
}

pub fn get_type(this: &Object, _args: &[Value]) -> (r: Result<Value, Error>)
    ensures
        read_text(
            *this,
            r,
            |t: EditText|
                if t.is_editable {
                    "input"@
                } else {
                    "dynamic"@
                },
        ),
{
    match this {
        Object::EditText(t) => if t.is_editable {
            Ok(Value::String(String::from_str("input")))
        } else {
            Ok(Value::String(String::from_str("dynamic")))
        },
        Object::Other => Ok(Value::Undefined),
    }
}

/// Makes the field an input field (`input`) or not (`dynamic`); any other
/// type is an error that changes nothing.
pub fn set_type(this: &mut Object, args: &[Value]) -> (r: Result<Value, Error>)
    ensures
        match *old(this) {
            Object::EditText(t) => {
                let s = text_of(arg_at(args@, 0));
                if s == "input"@ {
                    r == Ok::<Value, Error>(Value::Undefined) && *final(this) == Object::EditText(
                        EditText { is_editable: true, ..t },
                    )
                } else if s == "dynamic"@ {
                    r == Ok::<Value, Error>(Value::Undefined) && *final(this) == Object::EditText(
                        EditText { is_editable: false, ..t },
                    )
                } else {
                    r matches Err(Error::InvalidTextFieldType(e)) && e@ == s && *final(this) == *old(this)
                }
            },
            Object::Other => r == Ok::<Value, Error>(Value::Undefined) && *final(this) == *old(this),
        },
{
    if let Object::EditText(t) = this {
        let value = coerce_to_string(&arg(args, 0));
        if is_text(&value, "input") {
            t.is_editable = true;
        } else if is_text(&value, "dynamic") {
            t.is_editable = false;
        } else {
            return Err(Error::InvalidTextFieldType(value));
        }
    }
    Ok(Value::Undefined)
}

pub fn get_word_wrap(this: &Object, _args: &[Value]) -> (r: Result<Value, Error>)
    ensures
        r == read_field(*this, |t: EditText| Value::Bool(t.is_word_wrap)),
{
    match this {
        Object::EditText(t) => Ok(Value::Bool(t.is_word_wrap)),
        Object::Other => Ok(Value::Undefined),
    }
}

pub fn set_word_wrap(this: &mut Object, args: &[Value]) -> (r: Result<Value, Error>)
    ensures
        r == Ok::<Value, Error>(Value::Undefined),
        *final(this) == update_field(
            *old(this),
            |t: EditText| EditText { is_word_wrap: truth_of(arg_at(args@, 0)), ..t },
        ),
{
    let v = coerce_to_boolean(&arg(args, 0));
    if let Object::EditText(t) = this {
        t.is_word_wrap = v;
    }
    Ok(Value::Undefined)
}

/// What replacing the characters `from` up to `to` of `a` by `s` leaves in `b`.
pub open spec fn replaced(a: EditText, b: EditText, from: usize, to: usize, s: Seq<char>) -> bool {
    let (lo, hi) = clamp_range(from, to, a.text@.len());
    &&& b.text@ == a.text@.subrange(0, lo) + s + a.text@.subrange(hi, a.text@.len() as int)
    &&& b.formats@ == a.formats@.subrange(0, lo) + repeated(a.new_text_format, s.len())
        + a.formats@.subrange(hi, a.formats@.len() as int)
    &&& b.selection == clamp_selection_to(a.selection, b.text@.len())
    &&& same_settings(a, b)
}

/// Appends the text of the first argument.
pub fn append_text(this: &mut Object, args: &[Value]) -> (r: Result<Value, Error>)
    requires
        old(this).wf(),
        *old(this) matches Object::EditText(t) ==> t.text@.len() + text_of(arg_at(args@, 0)).len()
            <= MAX_TEXT_LENGTH,
    ensures
        r == Ok::<Value, Error>(Value::Undefined),
        final(this).wf(),
        match (*old(this), *final(this)) {
            (Object::EditText(a), Object::EditText(b)) => replaced(
                a,
                b,
                a.text@.len() as usize,
                a.text@.len() as usize,
                text_of(arg_at(args@, 0)),
            ),
            (Object::Other, Object::Other) => true,
            _ => false,
        },
{
    if let Object::EditText(t) = this {
        let text = coerce_to_string(&arg(args, 0));
        let len = t.text_length();
        t.replace_text(len, len, text.as_str());
    }
    Ok(Value::Undefined)
}

/// The argument at `i`, or `default` past the end.
pub open spec fn arg_or(args: Seq<Value>, i: int, default: Value) -> Value {
    if 0 <= i < args.len() {
        args[i]
    } else {
        default
    }
}

/// An index argument: the 32-bit integer of the argument at `i`, -1 where
/// there is none.
pub open spec fn index_arg(args: Seq<Value>, i: int) -> i32 {
    i32_of(arg_or(args, i, Value::Integer(-1i32)))
}

fn index_argument(args: &[Value], i: usize) -> (r: i32)
    ensures
        r == index_arg(args@, i as int),
{
    if i < args.len() {
        coerce_to_i32(&args[i])
    } else {
        -1
    }
}

/// The format shared by the characters from the first argument up to the
/// second: a negative start counts from the beginning, a negative end runs to
/// the end of the text.
pub fn get_text_format(this: &Object, args: &[Value]) -> (r: Result<Value, Error>)
    requires
        this.wf(),
    ensures
        r == read_field(
            *this,
            |t: EditText|
                {
                    let b = index_arg(args@, 0);
                    let e = index_arg(args@, 1);
                    let from = if b < 0 {
                        0usize
                    } else {
                        b as usize
                    };
                    let to = if e < 0 {
                        t.text@.len() as usize
                    } else {
                        e as usize
                    };
                    let (lo, hi) = clamp_range(from, to, t.text@.len());
                    Value::TextFormat(range_format(t.formats@, lo, hi))
                },
        ),
{
    match this {
        Object::EditText(t) => {
            let b = index_argument(args, 0);
            let e = index_argument(args, 1);
            let from: usize = if b < 0 {
                0
            } else {
                b as usize
            };
            let to: usize = if e < 0 {
                t.text_length()
            } else {
                e as usize
            };
            Ok(Value::TextFormat(t.text_format(from, to)))
        },
        Object::Other => Ok(Value::Undefined),
    }
}

/// Replaces the selected text, or inserts at the start where nothing is
/// selected, by the text of the first argument.
pub fn replace_selected_text(this: &mut Object, args: &[Value]) -> (r: Result<Value, Error>)
    requires
        old(this).wf(),
        *old(this) matches Object::EditText(t) ==> t.text@.len() + text_of(arg_at(args@, 0)).len()
            <= MAX_TEXT_LENGTH,
    ensures
        r == Ok::<Value, Error>(Value::Undefined),
        final(this).wf(),
        match (*old(this), *final(this)) {
            (Object::EditText(a), Object::EditText(b)) => match a.selection {
                Some(s) => replaced(a, b, s.start(), s.end(), text_of(arg_at(args@, 0))),
                None => replaced(a, b, 0, 0, text_of(arg_at(args@, 0))),
            },
            (Object::Other, Object::Other) => true,
            _ => false,
        },
{
    if let Object::EditText(t) = this {
        let value = coerce_to_string(&arg(args, 0));
        let selection = match t.selection {
            Some(s) => s,
            None => TextSelection { from: 0, to: 0 },
        };
        t.replace_text(selection.start(), selection.end(), value.as_str());
    }
    Ok(Value::Undefined)
}

/// Replaces the characters from the first argument up to the second by the
/// text of the third.
pub fn replace_text(this: &mut Object, args: &[Value]) -> (r: Result<Value, Error>)
    requires
        old(this).wf(),
        *old(this) matches Object::EditText(t) ==> t.text@.len() + text_of(arg_at(args@, 2)).len()
            <= MAX_TEXT_LENGTH,
    ensures
        r == Ok::<Value, Error>(Value::Undefined),
        final(this).wf(),
        match (*old(this), *final(this)) {
            (Object::EditText(a), Object::EditText(b)) => replaced(
                a,
                b,
                u32_of(arg_at(args@, 0)) as usize,
                u32_of(arg_at(args@, 1)) as usize,
                text_of(arg_at(args@, 2)),
            ),
            (Object::Other, Object::Other) => true,
            _ => false,
        },
{
    if let Object::EditText(t) = this {
        let begin = coerce_to_u32(&arg(args, 0));
        let end = coerce_to_u32(&arg(args, 1));
        let value = coerce_to_string(&arg(args, 2));
        t.replace_text(begin as usize, end as usize, value.as_str());
    }
    Ok(Value::Undefined)
}

pub fn get_caret_index(this: &Object, _args: &[Value]) -> (r: Result<Value, Error>)
    requires
        this.wf(),
    ensures
        r == read_field(
            *this,
            |t: EditText|
                match t.selection {
                    Some(s) => Value::Integer(s.to as i32),
                    None => Value::Integer(0),
                },
        ),
{
    match this {
        Object::EditText(t) => match t.selection {
            Some(s) => Ok(count_value(s.to)),
            None => Ok(Value::Integer(0)),
        },
        Object::Other => Ok(Value::Undefined),
    }
}

pub fn get_selection_begin_index(this: &Object, _args: &[Value]) -> (r: Result<Value, Error>)
    requires
        this.wf(),
    ensures
        r == read_field(
            *this,
            |t: EditText|
                match t.selection {
                    Some(s) => Value::Integer(s.start() as i32),
                    None => Value::Integer(0),
                },
        ),
{
    match this {
        Object::EditText(t) => match t.selection {
            Some(s) => Ok(count_value(s.start())),
            None => Ok(Value::Integer(0)),
        },
        Object::Other => Ok(Value::Undefined),
    }
}

pub fn get_selection_end_index(this: &Object, _args: &[Value]) -> (r: Result<Value, Error>)
    requires
        this.wf(),
    ensures
        r == read_field(
            *this,
            |t: EditText|
                match t.selection {
                    Some(s) => Value::Integer(s.end() as i32),
                    None => Value::Integer(0),
                },
        ),
{
    match this {
        Object::EditText(t) => match t.selection {
            Some(s) => Ok(count_value(s.end())),
            None => Ok(Value::Integer(0)),
        },
        Object::Other => Ok(Value::Undefined),
    }
}

/// `n` held to at most `len`.
pub open spec fn at_most(n: usize, len: nat) -> usize {
    if n <= len {
        n
    } else {
        len as usize
    }
}

/// Selects from the first argument to the second, each held inside the text.
pub fn set_selection(this: &mut Object, args: &[Value]) -> (r: Result<Value, Error>)
    requires
        old(this).wf(),
    ensures
        r == Ok::<Value, Error>(Value::Undefined),
        final(this).wf(),
        *final(this) == update_field(
            *old(this),
            |t: EditText|
                EditText {
                    selection: Some(
                        TextSelection {
                            from: at_most(u32_of(arg_at(args@, 0)) as usize, t.text@.len()),
                            to: at_most(u32_of(arg_at(args@, 1)) as usize, t.text@.len()),
                        },
                    ),
                    ..t
                },
        ),
{
    if let Object::EditText(t) = this {
        let begin = coerce_to_u32(&arg(args, 0)) as usize;
        let end = coerce_to_u32(&arg(args, 1)) as usize;
        let len = t.text_length();
        let from = if begin <= len {
            begin
        } else {
            len
        };
        let to = if end <= len {
            end
        } else {
            len
        };
        t.selection = Some(TextSelection { from, to });
    }
    Ok(Value::Undefined)
}

/// Merges the text format of the first argument into the characters from the
/// second argument up to the third. A negative start counts from the
/// beginning, a negative end runs to the end of the text; an index past the
/// end of the text is a range error that changes nothing. A first argument
/// that is not a text format does nothing.
pub fn set_text_format(this: &mut Object, args: &[Value]) -> (r: Result<Value, Error>)
    requires
        old(this).wf(),
    ensures
        final(this).wf(),
        match (*old(this), arg_at(args@, 0)) {
            (Object::EditText(a), Value::TextFormat(tf)) => {
                let len = a.text@.len();
                let b0 = index_arg(args@, 1);
                let e0 = index_arg(args@, 2);
                let from: int = if b0 < 0 {
                    0
                } else {
                    b0 as int
                };
                let to: int = if e0 < 0 {
                    len as int
                } else {
                    e0 as int
                };
                if from > len || to > len {
                    r matches Err(Error::Range) && *final(this) == *old(this)
                } else {
                    &&& r == Ok::<Value, Error>(Value::Undefined)
                    &&& *final(this) matches Object::EditText(b) && b.text == a.text && b.selection
                        == a.selection && same_settings(a, b) && b.formats@.len() == len
                        && forall|i: int|
                        0 <= i < len ==> #[trigger] b.formats@[i] == if from <= i < to {
                            merge_format(a.formats@[i], tf)
                        } else {
                            a.formats@[i]
                        }
                }
            },
            _ => r == Ok::<Value, Error>(Value::Undefined) && *final(this) == *old(this),
        },
{
    if let Object::EditText(t) = this {
        if args.len() > 0 {
            if let Value::TextFormat(tf) = &args[0] {
                let b = index_argument(args, 1);
                let e = index_argument(args, 2);
                let len = t.text_length();
                let from: usize = if b < 0 {
                    0
                } else {
                    b as usize
                };
                if from > len {
                    return Err(Error::Range);
                }
                let to: usize = if e < 0 {
                    len
                } else {
                    e as usize
                };
                if to > len {
                    return Err(Error::Range);
                }
                if from <= to {
                    t.set_text_format(from, to, *tf);
                }
            }
        }
    }
    Ok(Value::Undefined)
}

pub fn get_anti_alias_type(this: &Object, _args: &[Value]) -> (r: Result<Value, Error>)
    ensures
        read_text(
            *this,
            r,
            |t: EditText|
                if t.advanced_rendering {
                    "advanced"@
                } else {
                    "normal"@
                },
        ),
{
    match this {
        Object::EditText(t) => if t.advanced_rendering {
            Ok(Value::String(String::from_str("advanced")))
        } else {
            Ok(Value::String(String::from_str("normal")))
        },
        Object::Other => Ok(Value::Undefined),
    }
}

/// Turns advanced rendering on (`advanced`) or off (`normal`); any other text
/// changes nothing.
pub fn set_anti_alias_type(this: &mut Object, args: &[Value]) -> (r: Result<Value, Error>)
    ensures
        r == Ok::<Value, Error>(Value::Undefined),
        *final(this) == update_field(
            *old(this),
            |t: EditText|
                {
                    let s = text_of(arg_at(args@, 0));
                    if s == "advanced"@ {
                        EditText { advanced_rendering: true, ..t }
                    } else if s == "normal"@ {
                        EditText { advanced_rendering: false, ..t }
                    } else {
                        t
                    }
                },
        ),
{
    if let Object::EditText(t) = this {
        let value = coerce_to_string(&arg(args, 0));
        if is_text(&value, "advanced") {
            t.advanced_rendering = true;
        } else if is_text(&value, "normal") {
            t.advanced_rendering = false;
        }
    }
    Ok(Value::Undefined)
}

/// The text of a grid fitting mode.
pub open spec fn grid_fit_text(g: GridFit) -> Seq<char> {
    match g {
        GridFit::Off => "none"@,
        GridFit::Pixel => "pixel"@,
        GridFit::SubPixel => "subpixel"@,
    }
}

pub fn get_grid_fit_type(this: &Object, _args: &[Value]) -> (r: Result<Value, Error>)
    ensures
        read_text(*this, r, |t: EditText| grid_fit_text(t.grid_fit)),
{
    match this {
        Object::EditText(t) => {
            let s = match t.grid_fit {
                GridFit::Off => "none",
                GridFit::Pixel => "pixel",
                GridFit::SubPixel => "subpixel",
            };
            Ok(Value::String(String::from_str(s)))
        },
        Object::Other => Ok(Value::Undefined),
    }
}

/// Sets grid fitting to `pixel` or `subpixel`; any other text turns it off.
pub fn set_grid_fit_type(this: &mut Object, args: &[Value]) -> (r: Result<Value, Error>)
    ensures
        r == Ok::<Value, Error>(Value::Undefined),
        *final(this) == update_field(
            *old(this),
            |t: EditText|
                {
                    let s = text_of(arg_at(args@, 0));
                    EditText {
                        grid_fit: if s == "pixel"@ {
                            GridFit::Pixel
                        } else if s == "subpixel"@ {
                            GridFit::SubPixel
                        } else {
                            GridFit::Off
                        },
                        ..t
                    }
                },
        ),
{
    if let Object::EditText(t) = this {
        let value = coerce_to_string(&arg(args, 0));
        t.grid_fit = if is_text(&value, "pixel") {
            GridFit::Pixel
        } else if is_text(&value, "subpixel") {
            GridFit::SubPixel
        } else {
            GridFit::Off
        };
    }
    Ok(Value::Undefined)
}

pub fn get_num_lines(this: &Object, _args: &[Value]) -> (r: Result<Value, Error>)
    ensures
        r == read_field(*this, |t: EditText| Value::Integer(t.num_lines)),
{
    match this {
        Object::EditText(t) => Ok(Value::Integer(t.num_lines)),
        Object::Other => Ok(Value::Undefined),
    }
}

pub fn get_bottom_scroll_v(this: &Object, _args: &[Value]) -> (r: Result<Value, Error>)
    ensures
        r == read_field(*this, |t: EditText| Value::Integer(t.bottom_scroll)),
{
    match this {
        Object::EditText(t) => Ok(Value::Integer(t.bottom_scroll)),
        Object::Other => Ok(Value::Undefined),
    }
}

pub fn get_max_scroll_v(this: &Object, _args: &[Value]) -> (r: Result<Value, Error>)
    ensures
        r == read_field(*this, |t: EditText| Value::Integer(t.max_scroll)),
{
    match this {
        Object::EditText(t) => Ok(Value::Integer(t.max_scroll)),
        Object::Other => Ok(Value::Undefined),
    }
}

pub fn get_max_scroll_h(this: &Object, _args: &[Value]) -> (r: Result<Value, Error>)
    ensures
        r == read_field(*this, |t: EditText| Value::Integer(t.max_hscroll)),
{
    match this {
        Object::EditText(t) => Ok(Value::Integer(t.max_hscroll)),
        Object::Other => Ok(Value::Undefined),
    }
}

pub fn get_scroll_v(this: &Object, _args: &[Value]) -> (r: Result<Value, Error>)
    ensures
        r == read_field(*this, |t: EditText| Value::Integer(t.scroll)),
{
    match this {
        Object::EditText(t) => Ok(Value::Integer(t.scroll)),
        Object::Other => Ok(Value::Undefined),
    }
}

pub fn set_scroll_v(this: &mut Object, args: &[Value]) -> (r: Result<Value, Error>)
    ensures
        r == Ok::<Value, Error>(Value::Undefined),
        *final(this) == update_field(
            *old(this),
            |t: EditText| EditText { scroll: i32_of(arg_at(args@, 0)), ..t },
        ),
{
    let v = coerce_to_i32(&arg(args, 0));
    if let Object::EditText(t) = this {
        t.scroll = v;
    }
    Ok(Value::Undefined)
}

pub fn get_scroll_h(this: &Object, _args: &[Value]) -> (r: Result<Value, Error>)
    ensures
        r == read_field(*this, |t: EditText| Value::Integer(t.hscroll)),
{
    match this {
        Object::EditText(t) => Ok(Value::Integer(t.hscroll)),
        Object::Other => Ok(Value::Undefined),
    }
}

/// `n` held between `lo` and `hi`.
pub open spec fn clamp_i32(n: i32, lo: i32, hi: i32) -> i32 {
    if n < lo {
        lo
    } else if n > hi {
        hi
    } else {
        n
    }
}

/// Sets the horizontal scroll position, held between 0 and its largest value.
pub fn set_scroll_h(this: &mut Object, args: &[Value]) -> (r: Result<Value, Error>)
    requires
        old(this).wf(),
    ensures
        r == Ok::<Value, Error>(Value::Undefined),
        final(this).wf(),
        *final(this) == update_field(
            *old(this),
            |t: EditText| EditText { hscroll: clamp_i32(i32_of(arg_at(args@, 0)), 0, t.max_hscroll), ..t },
        ),
{
    let input = coerce_to_i32(&arg(args, 0));
    if let Object::EditText(t) = this {
        let hi = t.max_hscroll;
        t.hscroll = if input < 0 {
            0
        } else if input > hi {
            hi
        } else {
            input
        };
    }
    Ok(Value::Undefined)
}

pub fn get_max_chars(this: &Object, _args: &[Value]) -> (r: Result<Value, Error>)
    ensures
        r == read_field(*this, |t: EditText| Value::Integer(t.max_chars)),
{
    match this {
        Object::EditText(t) => Ok(Value::Integer(t.max_chars)),
        Object::Other => Ok(Value::Undefined),
    }
}

pub fn set_max_chars(this: &mut Object, args: &[Value]) -> (r: Result<Value, Error>)
    ensures
        r == Ok::<Value, Error>(Value::Undefined),
        *final(this) == update_field(
            *old(this),
            |t: EditText| EditText { max_chars: i32_of(arg_at(args@, 0)), ..t },
        ),
{
    let v = coerce_to_i32(&arg(args, 0));
    if let Object::EditText(t) = this {
        t.max_chars = v;
    }
    Ok(Value::Undefined)
}

pub fn get_mouse_wheel_enabled(_this: &Object, _args: &[Value]) -> (r: Result<Value, Error>)
    ensures
        r == Ok::<Value, Error>(Value::Bool(true)),
{
    Ok(Value::Bool(true))
}

pub fn set_mouse_wheel_enabled(_this: &mut Object, _args: &[Value]) -> (r: Result<Value, Error>)
    ensures
        r == Ok::<Value, Error>(Value::Undefined),
        *final(_this) == *old(_this),
{
    Ok(Value::Undefined)
}

pub fn get_restrict(_this: &Object, _args: &[Value]) -> (r: Result<Value, Error>)
    ensures
        r == Ok::<Value, Error>(Value::Null),
{
    Ok(Value::Null)
}

pub fn set_restrict(_this: &mut Object, _args: &[Value]) -> (r: Result<Value, Error>)
    ensures
        r == Ok::<Value, Error>(Value::Undefined),
        *final(_this) == *old(_this),
{
    Ok(Value::Undefined)
}

} // verus!
