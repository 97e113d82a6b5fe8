//! Export tables: maps from qualified names to values, kept in insertion order.

use vstd::prelude::*;
use crate::names::{Multiname, Namespace, QName, QNameView};

verus! {

/// The keys of `s` are pairwise distinct.
pub open spec fn keys_unique<V>(s: Seq<(QNameView, V)>) -> bool {
    forall|i: int, j: int| 0 <= i < j < s.len() ==> s[i].0 != s[j].0
}

/// Some entry of `s` has the key `q`.
pub open spec fn has_key<V>(s: Seq<(QNameView, V)>, q: QNameView) -> bool {
    exists|i: int| 0 <= i < s.len() && #[trigger] s[i].0 == q
}

/// The index of the first entry of `s` whose key the multiname `m` denotes.
pub open spec fn first_match<V>(s: Seq<(QNameView, V)>, m: Multiname) -> Option<int>
    decreases s.len(),
{
    if s.len() == 0 {
        None
    } else {
        match first_match(s.drop_last(), m) {
            Some(i) => Some(i),
            None => if m.denotes(s.last().0) {
                Some(s.len() - 1)
            } else {
                None
            },
        }
    }
}

/// `first_match` picks the earliest entry that `m` denotes, and is `None`
/// only where `m` denotes no key.
pub proof fn lemma_first_match<V>(s: Seq<(QNameView, V)>, m: Multiname)
    ensures
        first_match(s, m) matches Some(i) ==> {
            &&& 0 <= i < s.len()
            &&& m.denotes(s[i].0)
            &&& forall|j: int| 0 <= j < i ==> !m.denotes(#[trigger] s[j].0)
        },
        first_match(s, m) is None ==> forall|j: int| 0 <= j < s.len() ==> !m.denotes(#[trigger] s[j].0),
    decreases s.len(),
{
    if s.len() > 0 {
        lemma_first_match(s.drop_last(), m);
        assert forall|j: int| 0 <= j < s.len() - 1 implies #[trigger] s[j].0 == s.drop_last()[j].0 by {}
    }
}

/// The index of the first entry of `s` with the key `q`.
pub open spec fn key_index<V>(s: Seq<(QNameView, V)>, q: QNameView) -> Option<int>
    decreases s.len(),
{
    if s.len() == 0 {
        None
    } else {
        match key_index(s.drop_last(), q) {
            Some(i) => Some(i),
            None => if s.last().0 == q {
                Some(s.len() - 1)
            } else {
                None
            },
        }
    }
}

/// `key_index` finds an entry with the key exactly where the key is present,
/// and a pair added at the end does not move a key already found.
pub proof fn lemma_key_index<V>(s: Seq<(QNameView, V)>, q: QNameView)
    ensures
        key_index(s, q) matches Some(i) ==> 0 <= i < s.len() && s[i].0 == q,
        key_index(s, q) is None <==> !has_key(s, q),
        forall|x: (QNameView, V)| #[trigger]
            key_index(s.push(x), q) == match key_index(s, q) {
                Some(i) => Some(i),
                None => if x.0 == q {
                    Some(s.len() as int)
                } else {
                    None
                },
            },
    decreases s.len(),
{
    assert forall|x: (QNameView, V)| #[trigger]
        key_index(s.push(x), q) == match key_index(s, q) {
            Some(i) => Some(i),
            None => if x.0 == q {
                Some(s.len() as int)
            } else {
                None
            },
        } by {
        assert(s.push(x).drop_last() =~= s);
    }
    if s.len() > 0 {
        lemma_key_index(s.drop_last(), q);
        if has_key(s, q) {
            let i = choose|i: int| 0 <= i < s.len() && #[trigger] s[i].0 == q;
            if i < s.len() - 1 {
                assert(s.drop_last()[i].0 == q);
            }
        }
        if has_key(s.drop_last(), q) {
            let i = choose|i: int| 0 <= i < s.drop_last().len() && #[trigger] s.drop_last()[i].0 == q;
            assert(s[i].0 == q);
        }
    }
}

/// A multiname that denotes exactly the name `q` finds what a lookup of the
/// key `q` finds.
pub proof fn lemma_first_match_single<V>(s: Seq<(QNameView, V)>, m: Multiname, q: QNameView)
    requires
        forall|x: QNameView| m.denotes(x) <==> x == q,
    ensures
        first_match(s, m) == key_index(s, q),
        key_index(s, q) matches Some(i) ==> 0 <= i < s.len() && s[i].0 == q,
        key_index(s, q) is None <==> !has_key(s, q),
    decreases s.len(),
{
    if s.len() > 0 {
        lemma_first_match_single(s.drop_last(), m, q);
        assert(m.denotes(s.last().0) <==> s.last().0 == q);
        if has_key(s, q) {
            let i = choose|i: int| 0 <= i < s.len() && #[trigger] s[i].0 == q;
            if i < s.len() - 1 {
                assert(s.drop_last()[i].0 == q);
            }
        }
        if has_key(s.drop_last(), q) {
            let i = choose|i: int| 0 <= i < s.drop_last().len() && #[trigger] s.drop_last()[i].0 == q;
            assert(s[i].0 == q);
        }
    }
}

/// A table of exported definitions, keyed by qualified name, in insertion order.
pub struct PropertyMap<V> {
    entries: Vec<(QName, V)>,
}

impl<V: Copy> View for PropertyMap<V> {
    type V = Seq<(QNameView, V)>;

    closed spec fn view(&self) -> Seq<(QNameView, V)> {
        self.entries@.map_values(|e: (QName, V)| (e.0@, e.1))
    }
}

impl<V: Copy> PropertyMap<V> {
    /// Each key stands in the table once.
    pub open spec fn wf(&self) -> bool {
        keys_unique(self@)
    }

    pub fn new() -> (r: PropertyMap<V>)
        ensures
            r@ == Seq::<(QNameView, V)>::empty(),
            r.wf(),
    {
        let r = PropertyMap { entries: Vec::new() };
        assert(r@ =~= Seq::<(QNameView, V)>::empty());
        r
    }

    pub fn len(&self) -> (r: usize)
        ensures
            r == self@.len(),
    {
        self.entries.len()
    }

    /// The position of the entry with key `name`.
    fn index_of(&self, name: &QName) -> (r: Option<usize>)
        ensures
            r matches Some(i) ==> i < self@.len() && self@[i as int].0 == name@,
            r is None ==> !has_key(self@, name@),
    {
        let mut i: usize = 0;
        while i < self.entries.len()
            invariant
                i <= self@.len(),
                self@.len() == self.entries@.len(),
                forall|j: int| 0 <= j < i ==> self@[j].0 != name@,
            decreases self.entries@.len() - i,
        {
            if self.entries[i].0.same_as(name) {
                return Some(i);
            }
            i = i + 1;
        }
        None
    }

    /// Whether some entry has the key `name`.
    pub fn contains_key(&self, name: &QName) -> (r: bool)
        ensures
            r == has_key(self@, name@),
    {
        self.index_of(name).is_some()
    }

    /// The first entry, in insertion order, whose key the multiname denotes,
    /// with the namespace that matched.
    pub fn get_with_ns_for_multiname(&self, multiname: &Multiname) -> (r: Option<(Namespace, V)>)
        ensures
            match first_match(self@, *multiname) {
                Some(i) => r matches Some(p) && p.0@ == self@[i].0.namespace && p.1 == self@[i].1,
                None => r is None,
            },
    {
        let ghost s = self@;
        let mut i: usize = 0;
        while i < self.entries.len()
            invariant
                i <= s.len(),
                s == self@,
                s.len() == self.entries@.len(),
                forall|j: int| 0 <= j < i ==> !multiname.denotes(#[trigger] s[j].0),
            decreases self.entries@.len() - i,
        {
            assert(s[i as int] == (self.entries@[i as int].0@, self.entries@[i as int].1));
            if multiname.denotes_qname(&self.entries[i].0) {
                proof {
                    lemma_first_match(s, *multiname);
                    assert(multiname.denotes(s[i as int].0));
                }
                return Some((self.entries[i].0.namespace.copied(), self.entries[i].1));
            }
            i = i + 1;
        }
        proof {
            lemma_first_match(s, *multiname);
        }
        None
    }

    /// The value of the first entry whose key the multiname denotes.
    pub fn get_for_multiname(&self, multiname: &Multiname) -> (r: Option<V>)
        ensures
            match first_match(self@, *multiname) {
                Some(i) => r == Some(self@[i].1),
                None => r is None,
            },
    {
        match self.get_with_ns_for_multiname(multiname) {
            Some(p) => Some(p.1),
            None => None,
        }
    }

    /// Sets the value of `name`: a new key goes at the end, a known one keeps
    /// its place.
    pub fn insert(&mut self, name: QName, value: V)
        requires
            old(self).wf(),
        ensures
            final(self).wf(),
            has_key(old(self)@, name@) ==> exists|i: int|
                0 <= i < old(self)@.len() && old(self)@[i].0 == name@ && final(self)@ == old(
                    self,
                )@.update(i, (name@, value)),
            !has_key(old(self)@, name@) ==> final(self)@ == old(self)@.push((name@, value)),
    {
        match self.index_of(&name) {
            Some(i) => {
                let ghost q = name@;
                self.entries.set(i, (name, value));
                assert(self@ =~= old(self)@.update(i as int, (q, value)));
            },
            None => {
                let ghost q = name@;
                self.entries.push((name, value));
                assert(self@ =~= old(self)@.push((q, value)));
            },
        }
    }

    /// The keys, in insertion order.
    pub fn keys(&self) -> (r: Vec<QName>)
        ensures
            r@.len() == self@.len(),
            forall|i: int| 0 <= i < r@.len() ==> #[trigger] r@[i]@ == self@[i].0,
    {
        let mut r: Vec<QName> = Vec::new();
        let mut i: usize = 0;
        while i < self.entries.len()
            invariant
                i <= self@.len(),
                self@.len() == self.entries@.len(),
                r@.len() == i,
                forall|j: int| 0 <= j < i ==> #[trigger] r@[j]@ == self@[j].0,
            decreases self.entries@.len() - i,
        {
            r.push(self.entries[i].0.copied());
            i = i + 1;
        }
        r
    }
}

} // verus!
