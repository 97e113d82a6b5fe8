//! Searching for one piece of text inside another.

use vstd::prelude::*;

verus! {

/// `p` stands in `s` at position `i`.
pub open spec fn occurs_at(s: Seq<char>, p: Seq<char>, i: int) -> bool {
    0 <= i && i + p.len() <= s.len() && s.subrange(i, i + p.len()) == p
}

/// The first position at or after `i` where `p` stands in `s`.
pub open spec fn first_occurrence_from(s: Seq<char>, p: Seq<char>, i: int) -> Option<int>
    decreases s.len() + 1 - i,
{
    if i < 0 || i + p.len() > s.len() {
        None
    } else if occurs_at(s, p, i) {
        Some(i)
    } else {
        first_occurrence_from(s, p, i + 1)
    }
}

/// The first position where `p` stands in `s`.
pub open spec fn first_occurrence(s: Seq<char>, p: Seq<char>) -> Option<int> {
    first_occurrence_from(s, p, 0)
}

/// The last position at or before `k` where `p` stands in `s`.
pub open spec fn last_occurrence_upto(s: Seq<char>, p: Seq<char>, k: int) -> Option<int>
    decreases k + 1,
{
    if k < 0 {
        None
    } else if occurs_at(s, p, k) {
        Some(k)
    } else {
        last_occurrence_upto(s, p, k - 1)
    }
}

/// The last position where `p` stands in `s`.
pub open spec fn last_occurrence(s: Seq<char>, p: Seq<char>) -> Option<int> {
    last_occurrence_upto(s, p, s.len() as int)
}

pub open spec fn has_prefix(s: Seq<char>, p: Seq<char>) -> bool {
    occurs_at(s, p, 0)
}

pub open spec fn has_suffix(s: Seq<char>, p: Seq<char>) -> bool {
    occurs_at(s, p, s.len() - p.len())
}

/// The first occurrence found from `i` on is no later than any occurrence at or after `i`.
pub proof fn lemma_first_occurrence_minimal(s: Seq<char>, p: Seq<char>, i: int, j: int)
    requires
        0 <= i <= j,
        occurs_at(s, p, j),
    ensures
        first_occurrence_from(s, p, i) matches Some(k) && i <= k <= j && occurs_at(s, p, k),
    decreases j - i,
{
    if !occurs_at(s, p, i) {
        lemma_first_occurrence_minimal(s, p, i + 1, j);
    }
}

/// Whether `p` stands in `s` at position `i`.
fn occurs_at_exec(s: &str, slen: usize, p: &str, plen: usize, i: usize) -> (r: bool)
    requires
        slen == s@.len(),
        plen == p@.len(),
    ensures
        r == occurs_at(s@, p@, i as int),
{
    if i > slen || plen > slen - i {
        return false;
    }
    let mut j: usize = 0;
    while j < plen
        invariant
            j <= plen,
            i + plen <= slen,
            slen == s@.len(),
            plen == p@.len(),
            forall|k: int| 0 <= k < j ==> s@[i + k] == p@[k],
        decreases plen - j,
    {
        if s.get_char(i + j) != p.get_char(j) {
            assert(s@.subrange(i as int, i + plen)[j as int] != p@[j as int]);
            return false;
        }
        j = j + 1;
    }
    assert(s@.subrange(i as int, i + plen) =~= p@);
    true
}

/// Whether `s` begins with `p`.
pub fn starts_with(s: &str, p: &str) -> (r: bool)
    ensures
        r == has_prefix(s@, p@),
{
    occurs_at_exec(s, s.unicode_len(), p, p.unicode_len(), 0)
}

/// Whether `s` ends with `p`.
pub fn ends_with(s: &str, p: &str) -> (r: bool)
    ensures
        r == has_suffix(s@, p@),
{
    let slen = s.unicode_len();
    let plen = p.unicode_len();
    if plen > slen {
        return false;
    }
    occurs_at_exec(s, slen, p, plen, slen - plen)
}

/// The first position where `p` stands in `s`.
pub fn find(s: &str, p: &str) -> (r: Option<usize>)
    ensures
        r matches Some(i) ==> first_occurrence(s@, p@) == Some(i as int) && occurs_at(
            s@,
            p@,
            i as int,
        ),
        r is None ==> first_occurrence(s@, p@) is None,
{
    let slen = s.unicode_len();
    let plen = p.unicode_len();
    if plen > slen {
        return None;
    }
    let mut i: usize = 0;
    loop
        invariant
            plen <= slen,
            slen == s@.len(),
            plen == p@.len(),
            i <= slen - plen,
            first_occurrence(s@, p@) == first_occurrence_from(s@, p@, i as int),
        decreases slen - plen - i,
    {
        if occurs_at_exec(s, slen, p, plen, i) {
            return Some(i);
        }
        if i == slen - plen {
            assert(first_occurrence_from(s@, p@, i + 1) is None);
            return None;
        }
        i = i + 1;
    }
}

/// The last position where `p` stands in `s`.
pub fn rfind(s: &str, p: &str) -> (r: Option<usize>)
    ensures
        r matches Some(i) ==> last_occurrence(s@, p@) == Some(i as int) && occurs_at(
            s@,
            p@,
            i as int,
        ),
        r is None ==> last_occurrence(s@, p@) is None,
{
    let slen = s.unicode_len();
    let plen = p.unicode_len();
    let mut k: usize = slen;
    loop
        invariant
            slen == s@.len(),
            plen == p@.len(),
            k <= slen,
            last_occurrence(s@, p@) == last_occurrence_upto(s@, p@, k as int),
        decreases k,
    {
        if occurs_at_exec(s, slen, p, plen, k) {
            return Some(k);
        }
        if k == 0 {
            assert(last_occurrence_upto(s@, p@, -1) is None);
            return None;
        }
        k = k - 1;
    }
}

/// The characters of `s` from `from` up to `to`, as a new string.
pub fn substring(s: &str, from: usize, to: usize) -> (r: String)
    requires
        from <= to <= s@.len(),
    ensures
        r@ == s@.subrange(from as int, to as int),
{
    String::from_str(s.substring_char(from, to))
}

} // verus!
