//! Application domains: export tables chained to a parent, and the
//! resolution of names along that chain.

use vstd::prelude::*;
use crate::avm::{Avm2, Class, DomainData, Domain, Script, global_named};
use crate::class::{apply, applies_to, extends, lemma_extends_refl, lemma_extends_trans};
use crate::error::{Error, UNDEFINED_VARIABLE};
use crate::memory::{ByteArray, DEFAULT_MEMORY_LENGTH, zeros};
use crate::names::{
    Multiname, QName, QNameView, qualified_name_of, split_vector_name, vector_param_text,
};
use crate::property_map::{
    PropertyMap, first_match, has_key, key_index, lemma_first_match, lemma_first_match_single,
    lemma_key_index,
};
use crate::value::Value;

verus! {

/// The domains from `d` up to the root of its chain, nearest first.
pub open(crate) spec fn chain(avm: &Avm2, d: Domain) -> Seq<Domain>
    decreases d.index,
{
    match avm.parent(d) {
        Some(p) => if p.index < d.index {
            seq![d] + chain(avm, p)
        } else {
            seq![d]
        },
        None => seq![d],
    }
}

/// `q` is exported into `d` or into one of its ancestors.
pub open(crate) spec fn defined_in_chain(avm: &Avm2, d: Domain, q: QNameView) -> bool
    decreases d.index,
{
    has_key(avm.defs(d), q) || match avm.parent(d) {
        Some(p) => p.index < d.index && defined_in_chain(avm, p, q),
        None => false,
    }
}

/// A class named `q` is exported into `d` or into one of its ancestors.
pub open(crate) spec fn class_in_chain(avm: &Avm2, d: Domain, q: QNameView) -> bool
    decreases d.index,
{
    has_key(avm.class_defs(d), q) || match avm.parent(d) {
        Some(p) => p.index < d.index && class_in_chain(avm, p, q),
        None => false,
    }
}

/// The name and script that `m` resolves to from `d`: the first match in the
/// export table of the nearest domain of the chain that has one.
pub open(crate) spec fn defining_script(avm: &Avm2, d: Domain, m: Multiname) -> Option<
    (QNameView, Script),
>
    decreases d.index,
{
    match first_match(avm.defs(d), m) {
        Some(i) => Some(avm.defs(d)[i]),
        None => match avm.parent(d) {
            Some(p) => if p.index < d.index {
                defining_script(avm, p, m)
            } else {
                None
            },
            None => None,
        },
    }
}

/// The script that exported `q` into the nearest domain of the chain from
/// `d` that has it.
pub open(crate) spec fn script_for_name(avm: &Avm2, d: Domain, q: QNameView) -> Option<Script>
    decreases d.index,
{
    match key_index(avm.defs(d), q) {
        Some(i) => Some(avm.defs(d)[i].1),
        None => match avm.parent(d) {
            Some(p) => if p.index < d.index {
                script_for_name(avm, p, q)
            } else {
                None
            },
            None => None,
        },
    }
}

/// The class that `m` names in the nearest domain of the chain from `d` that
/// exports one, with no type argument applied.
pub open(crate) spec fn class_inner(avm: &Avm2, d: Domain, m: Multiname) -> Option<Class>
    decreases d.index,
{
    match first_match(avm.class_defs(d), m) {
        Some(i) => Some(avm.class_defs(d)[i].1),
        None => match avm.parent(d) {
            Some(p) => if p.index < d.index {
                class_inner(avm, p, m)
            } else {
                None
            },
            None => None,
        },
    }
}

/// The class that `m` denotes from `d`: the class that its name resolves to,
/// specialized, where `m` carries a type parameter other than "any name",
/// with the class that the parameter denotes, as recorded in `avm`.
pub open(crate) spec fn resolved_class(avm: &Avm2, d: Domain, m: Multiname) -> Option<Class>
    decreases m,
{
    match class_inner(avm, d, m) {
        None => None,
        Some(c) => match m.param {
            None => Some(c),
            Some(p) => if p.local_name is None {
                Some(c)
            } else {
                match resolved_class(avm, d, *p) {
                    None => None,
                    Some(pc) => avm.applied(c, pc),
                }
            },
        },
    }
}

/// The name of `m`, and the name of each type parameter in it other than
/// "any name", resolve to classes from `d`.
pub open(crate) spec fn class_resolvable(avm: &Avm2, d: Domain, m: Multiname) -> bool
    decreases m,
{
    &&& class_inner(avm, d, m) is Some
    &&& match m.param {
        Some(p) => p.local_name is Some ==> class_resolvable(avm, d, *p),
        None => true,
    }
}

/// The value of the global `q` of the script `s`, `undefined` where it has none.
pub open(crate) spec fn script_value(avm: &Avm2, s: Script, q: QNameView) -> Value {
    match global_named(avm.globals(s), q) {
        Some(v) => v,
        None => Value::Undefined,
    }
}

/// `r` is the reference error for an undefined name with the local name `local`.
pub open spec fn is_undefined_error<T>(r: Result<T, Error>, local: Seq<char>) -> bool {
    r matches Err(Error::Reference { code, name }) && code == UNDEFINED_VARIABLE && name@ == local
}

/// `r` is what looking up the value of `q` from `d` gives: the global of the
/// script that defines `q`, or a reference error where no script of the chain
/// defines it.
pub open(crate) spec fn defined_value_is(
    avm: &Avm2,
    d: Domain,
    q: QNameView,
    r: Result<Value, Error>,
) -> bool {
    match script_for_name(avm, d, q) {
        None => is_undefined_error(r, q.local_name),
        Some(s) => r == Ok::<Value, Error>(script_value(avm, s, q)),
    }
}

/// The qualified name of the vector class.
pub open spec fn vector_qname() -> QNameView {
    qualified_name_of("__AS3__.vec::Vector"@)
}

/// `r` is what looking up the text `name` from `d` gives, where `before` is the
/// store before and `after` the store after. A name of the form `Vector.<T>`
/// is looked up as the vector class and `T`, and `T` is applied to the vector
/// class; any other name is looked up as it is.
pub open(crate) spec fn vector_lookup_is(
    before: &Avm2,
    after: &Avm2,
    d: Domain,
    name: Seq<char>,
    r: Result<Value, Error>,
) -> bool {
    match vector_param_text(name) {
        None => defined_value_is(before, d, qualified_name_of(name), r) && *after == *before,
        Some(t) => {
            let tq = qualified_name_of(t);
            match script_for_name(before, d, tq) {
                None => is_undefined_error(r, tq.local_name) && *after == *before,
                Some(st) => match script_for_name(before, d, vector_qname()) {
                    None => is_undefined_error(r, vector_qname().local_name) && *after == *before,
                    Some(sb) => applies_to(
                        before,
                        after,
                        script_value(before, sb, vector_qname()),
                        script_value(before, st, tq),
                        r,
                    ),
                },
            }
        },
    }
}

/// What exporting `s` under `q` into `d` does, where `before` is the store
/// before and `after` the store after: it adds the entry to the table of `d`,
/// unless `d` or one of its ancestors already defines `q`; nothing else changes.
pub open(crate) spec fn exported(before: &Avm2, after: &Avm2, d: Domain, q: QNameView, s: Script) -> bool {
    &&& after.wf()
    &&& after.domain_count() == before.domain_count()
    &&& before.same_classes(after)
    &&& before.same_scripts(after)
    &&& forall|e: Domain| #[trigger]
        before.valid_domain(e) && e != d ==> same_domain(before, after, e)
    &&& after.class_defs(d) == before.class_defs(d)
    &&& after.parent(d) == before.parent(d)
    &&& after.memory(d) == before.memory(d)
    &&& defined_in_chain(before, d, q) ==> after.defs(d) == before.defs(d)
    &&& !defined_in_chain(before, d, q) ==> after.defs(d) == before.defs(d).push((q, s))
}

/// What exporting the class `c` into `d` does: the same as `exported`, on the
/// class table, keyed by the name of the class.
pub open(crate) spec fn class_exported(before: &Avm2, after: &Avm2, d: Domain, c: Class) -> bool {
    let q = before.class_name(c);
    &&& after.wf()
    &&& after.domain_count() == before.domain_count()
    &&& before.same_classes(after)
    &&& before.same_scripts(after)
    &&& forall|e: Domain| #[trigger]
        before.valid_domain(e) && e != d ==> same_domain(before, after, e)
    &&& after.defs(d) == before.defs(d)
    &&& after.parent(d) == before.parent(d)
    &&& after.memory(d) == before.memory(d)
    &&& class_in_chain(before, d, q) ==> after.class_defs(d) == before.class_defs(d)
    &&& !class_in_chain(before, d, q) ==> after.class_defs(d) == before.class_defs(d).push((q, c))
}

/// A multiname that denotes exactly `q` resolves to the script that defines `q`.
proof fn lemma_defining_script_single(avm: &Avm2, d: Domain, m: Multiname, q: QNameView)
    requires
        forall|x: QNameView| m.denotes(x) <==> x == q,
    ensures
        defining_script(avm, d, m) == match script_for_name(avm, d, q) {
            Some(s) => Some((q, s)),
            None => None,
        },
    decreases d.index,
{
    lemma_first_match_single(avm.defs(d), m, q);
    if let Some(p) = avm.parent(d) {
        if p.index < d.index {
            lemma_defining_script_single(avm, p, m, q);
        }
    }
}

/// Two stores with the same domains resolve class names alike.
proof fn lemma_class_inner_frame(a: &Avm2, b: &Avm2, d: Domain, m: Multiname)
    requires
        a.domains == b.domains,
    ensures
        class_inner(a, d, m) == class_inner(b, d, m),
    decreases d.index,
{
    if let Some(p) = a.parent(d) {
        if p.index < d.index {
            lemma_class_inner_frame(a, b, p, m);
        }
    }
}

/// In a well-formed store a class name resolves to a valid class.
proof fn lemma_class_inner_valid(a: &Avm2, d: Domain, m: Multiname)
    requires
        a.wf(),
        a.valid_domain(d),
    ensures
        class_inner(a, d, m) matches Some(c) ==> a.valid_class(c),
    decreases d.index,
{
    assert(a.domain_wf(d.index as int));
    lemma_first_match(a.class_defs(d), m);
    if let Some(p) = a.parent(d) {
        if p.index < d.index {
            lemma_class_inner_valid(a, p, m);
        }
    }
}

/// A class that a multiname denotes stays what it denotes as the store grows.
proof fn lemma_resolved_monotone(a: &Avm2, b: &Avm2, d: Domain, m: Multiname)
    requires
        a.wf(),
        a.valid_domain(d),
        extends(a, b),
        resolved_class(a, d, m) is Some,
    ensures
        resolved_class(b, d, m) == resolved_class(a, d, m),
    decreases m,
{
    lemma_class_inner_frame(a, b, d, m);
    lemma_class_inner_valid(a, d, m);
    if let Some(p) = m.param {
        if p.local_name is Some {
            lemma_resolved_monotone(a, b, d, *p);
            let c = class_inner(a, d, m)->Some_0;
            let pc = resolved_class(a, d, *p)->Some_0;
            assert(a.applied(c, pc) is Some);
        }
    }
}

/// The first export of a name wins: where neither `d` nor an ancestor of it
/// defines `q`, exporting `s1` and then `s2` under `q` into `d` leaves `q`
/// resolving from `d` to `s1`.
pub proof fn lemma_first_export_wins(
    h0: &Avm2,
    h1: &Avm2,
    h2: &Avm2,
    d: Domain,
    q: QNameView,
    s1: Script,
    s2: Script,
)
    requires
        h0.wf(),
        h0.valid_domain(d),
        !defined_in_chain(h0, d, q),
        exported(h0, h1, d, q, s1),
        exported(h1, h2, d, q, s2),
    ensures
        script_for_name(h1, d, q) == Some(s1),
        script_for_name(h2, d, q) == Some(s1),
{
    lemma_key_index(h0.defs(d), q);
    lemma_key_index(h1.defs(d), q);
    assert(h1.defs(d) == h0.defs(d).push((q, s1)));
    assert(key_index(h1.defs(d), q) == Some(h0.defs(d).len() as int));
    assert(has_key(h1.defs(d), q));
    assert(defined_in_chain(h1, d, q));
}

/// A child domain sees the definitions of its parent, unless it defines the
/// name itself: its own definition shadows the parent's.
pub proof fn lemma_ancestor_shadowing(avm: &Avm2, d: Domain, p: Domain, q: QNameView)
    requires
        avm.wf(),
        avm.valid_domain(d),
        avm.parent(d) == Some(p),
    ensures
        !has_key(avm.defs(d), q) ==> script_for_name(avm, d, q) == script_for_name(avm, p, q),
        has_key(avm.defs(d), q) ==> (key_index(avm.defs(d), q) matches Some(i)
            && script_for_name(avm, d, q) == Some(avm.defs(d)[i].1) && avm.defs(d)[i].0 == q),
{
    assert(avm.domain_wf(d.index as int));
    lemma_key_index(avm.defs(d), q);
}

/// Resolution ends: the chain of a domain is no longer than its position in
/// the store, and a name resolves to nothing exactly where no domain of the
/// chain exports a name that the multiname denotes.
pub proof fn lemma_resolution_bounded(avm: &Avm2, d: Domain, m: Multiname)
    requires
        avm.wf(),
        avm.valid_domain(d),
    ensures
        1 <= chain(avm, d).len() <= d.index + 1,
        chain(avm, d)[0] == d,
        forall|k: int| 0 <= k < chain(avm, d).len() ==> avm.valid_domain(#[trigger] chain(avm, d)[k]),
        defining_script(avm, d, m) is None <==> forall|k: int|
            0 <= k < chain(avm, d).len() ==> first_match(avm.defs(#[trigger] chain(avm, d)[k]), m) is None,
    decreases d.index,
{
    assert(avm.domain_wf(d.index as int));
    let c = chain(avm, d);
    match avm.parent(d) {
        Some(p) => {
            lemma_resolution_bounded(avm, p, m);
            let cp = chain(avm, p);
            assert(c == seq![d] + cp);
            assert forall|k: int| 0 <= k < c.len() implies avm.valid_domain(#[trigger] c[k]) by {
                if k > 0 {
                    assert(c[k] == cp[k - 1]);
                }
            }
            if defining_script(avm, d, m) is None {
                assert forall|k: int| 0 <= k < c.len() implies first_match(
                    avm.defs(#[trigger] c[k]),
                    m,
                ) is None by {
                    if k > 0 {
                        assert(c[k] == cp[k - 1]);
                    }
                }
            }
            if forall|k: int| 0 <= k < c.len() ==> first_match(avm.defs(#[trigger] c[k]), m) is None {
                assert(c[0] == d);
                assert forall|k: int| 0 <= k < cp.len() implies first_match(
                    avm.defs(#[trigger] cp[k]),
                    m,
                ) is None by {
                    assert(c[k + 1] == cp[k]);
                }
            }
        },
        None => {
            assert(c == seq![d]);
        },
    }
}

/// Looking up `Vector.<T>` is looking up the vector class and `T`, and
/// applying `T` to the vector class.
pub proof fn lemma_vector_desugaring(
    before: &Avm2,
    after: &Avm2,
    d: Domain,
    name: Seq<char>,
    r: Result<Value, Error>,
    inner: Seq<char>,
    base: Value,
    arg: Value,
)
    requires
        vector_lookup_is(before, after, d, name, r),
        vector_param_text(name) == Some(inner),
        defined_value_is(before, d, vector_qname(), Ok(base)),
        defined_value_is(before, d, qualified_name_of(inner), Ok(arg)),
    ensures
        applies_to(before, after, base, arg, r),
{
}

/// The plain name `Vector`, without brackets, is looked up as it is.
pub proof fn lemma_plain_vector_name(before: &Avm2, after: &Avm2, d: Domain, r: Result<Value, Error>)
    requires
        vector_lookup_is(before, after, d, "Vector"@, r),
    ensures
        vector_param_text("Vector"@) is None,
        defined_value_is(before, d, qualified_name_of("Vector"@), r),
        *after == *before,
{
    reveal_strlit("Vector");
    reveal_strlit("Vector.<");
    reveal_strlit("__AS3__.vec::Vector.<");
}

/// A change of the memory of one domain keeps the store well-formed.
pub proof fn lemma_memory_change_keeps_wf(before: &Avm2, after: &Avm2, d: Domain)
    requires
        before.wf(),
        before.valid_domain(d),
        only_memory_of(before, after, d),
    ensures
        after.wf(),
{
    assert forall|k: int| 0 <= k < after.domains@.len() implies #[trigger] after.domain_wf(k) by {
        assert(before.domain_wf(k));
        if k != d.index {
            assert(after.domains@[k] == before.domains@[k]);
        }
    }
    assert forall|k: int| 0 <= k < after.classes@.len() implies #[trigger] after.class_wf(k) by {
        assert(before.class_wf(k));
    }
    assert forall|k: int| 0 <= k < after.scripts@.len() implies #[trigger] after.script_wf(k) by {
        assert(before.script_wf(k));
    }
}

/// The domain `d` of `after` is the domain `d` of `before`.
pub open(crate) spec fn same_domain(before: &Avm2, after: &Avm2, d: Domain) -> bool {
    &&& after.defs(d) == before.defs(d)
    &&& after.class_defs(d) == before.class_defs(d)
    &&& after.parent(d) == before.parent(d)
    &&& after.memory(d) == before.memory(d)
}

/// Only the domain `d` may have changed, and only its memory.
pub open(crate) spec fn only_memory_of(before: &Avm2, after: &Avm2, d: Domain) -> bool {
    &&& after.domains@.len() == before.domains@.len()
    &&& after.classes == before.classes
    &&& after.scripts == before.scripts
    &&& forall|i: int|
        0 <= i < before.domains@.len() && i != d.index ==> #[trigger] after.domains@[i]
            == before.domains@[i]
    &&& after.defs(d) == before.defs(d)
    &&& after.class_defs(d) == before.class_defs(d)
    &&& after.parent(d) == before.parent(d)
}

impl Domain {
    /// A new domain with no memory, for the domains made before the byte
    /// array class exists. Memory must be given to it before user code runs.
    pub fn uninitialized_domain(avm: &mut Avm2, parent: Option<Domain>) -> (r: Domain)
        requires
            old(avm).wf(),
            parent matches Some(p) ==> old(avm).valid_domain(p),
        ensures
            final(avm).wf(),
            r.index == old(avm).domain_count(),
            final(avm).domain_count() == old(avm).domain_count() + 1,
            old(avm).same_classes(final(avm)),
            old(avm).same_scripts(final(avm)),
            forall|e: Domain| #[trigger]
                old(avm).valid_domain(e) ==> same_domain(old(avm), final(avm), e),
            final(avm).defs(r).len() == 0,
            final(avm).class_defs(r).len() == 0,
            final(avm).parent(r) == parent,
            final(avm).memory(r) is None,
    {
        let r = Domain { index: avm.domains.len() };
        let data = DomainData {
            defs: PropertyMap::new(),
            classes: PropertyMap::new(),
            parent,
            domain_memory: None,
        };
        avm.domains.push(data);
        assert forall|i: int| 0 <= i < avm.domains@.len() implies #[trigger] avm.domain_wf(i) by {
            if i < old(avm).domains@.len() {
                assert(old(avm).domain_wf(i));
            }
        }
        assert forall|i: int| 0 <= i < avm.classes@.len() implies #[trigger] avm.class_wf(i) by {
            assert(old(avm).class_wf(i));
        }
        assert forall|i: int| 0 <= i < avm.scripts@.len() implies #[trigger] avm.script_wf(i) by {
            assert(old(avm).script_wf(i));
        }
        r
    }

    /// A new domain under `parent`, with a memory of the default length.
    pub fn movie_domain(avm: &mut Avm2, parent: Domain) -> (r: Domain)
        requires
            old(avm).wf(),
            old(avm).valid_domain(parent),
        ensures
            final(avm).wf(),
            r.index == old(avm).domain_count(),
            final(avm).domain_count() == old(avm).domain_count() + 1,
            old(avm).same_classes(final(avm)),
            old(avm).same_scripts(final(avm)),
            forall|e: Domain| #[trigger]
                old(avm).valid_domain(e) ==> same_domain(old(avm), final(avm), e),
            final(avm).defs(r).len() == 0,
            final(avm).class_defs(r).len() == 0,
            final(avm).parent(r) == Some(parent),
            final(avm).memory(r) == Some(zeros(DEFAULT_MEMORY_LENGTH as nat)),
    {
        let r = Domain::uninitialized_domain(avm, Some(parent));
        let ghost mid = *avm;
        r.init_default_domain_memory(avm);
        assert forall|e: Domain| #[trigger] old(avm).valid_domain(e) implies same_domain(
            old(avm),
            final(avm),
            e,
        ) by {
            assert(same_domain(old(avm), &mid, e));
            assert(mid.valid_domain(e) && e != r);
            assert(same_domain(&mid, final(avm), e));
        }
        r
    }

    /// Whether this is the player globals domain: the first domain made in the
    /// store, before any other.
    pub fn is_playerglobals_domain(&self, avm: &Avm2) -> (r: bool)
        requires
            avm.valid_domain(*self),
        ensures
            r == (self.index == 0),
    {
        self.index == 0
    }

    /// The parent of this domain.
    pub fn parent_domain(self, avm: &Avm2) -> (r: Option<Domain>)
        requires
            avm.valid_domain(self),
        ensures
            r == avm.parent(self),
    {
        avm.domains[self.index].parent
    }

    /// Whether a script exported `name` into this domain or one of its ancestors.
    pub fn has_definition(self, avm: &Avm2, name: &QName) -> (r: bool)
        requires
            avm.wf(),
            avm.valid_domain(self),
        ensures
            r == defined_in_chain(avm, self, name@),
    {
        let mut cur = self;
        loop
            invariant
                avm.wf(),
                avm.valid_domain(cur),
                defined_in_chain(avm, self, name@) == defined_in_chain(avm, cur, name@),
            decreases cur.index,
        {
            assert(avm.domain_wf(cur.index as int));
            let data = &avm.domains[cur.index];
            if data.defs.contains_key(name) {
                return true;
            }
            match data.parent {
                Some(p) => {
                    cur = p;
                },
                None => {
                    return false;
                },
            }
        }
    }

    /// Whether a class named `name` was exported into this domain or one of
    /// its ancestors.
    pub fn has_class(self, avm: &Avm2, name: &QName) -> (r: bool)
        requires
            avm.wf(),
            avm.valid_domain(self),
        ensures
            r == class_in_chain(avm, self, name@),
    {
        let mut cur = self;
        loop
            invariant
                avm.wf(),
                avm.valid_domain(cur),
                class_in_chain(avm, self, name@) == class_in_chain(avm, cur, name@),
            decreases cur.index,
        {
            assert(avm.domain_wf(cur.index as int));
            let data = &avm.domains[cur.index];
            if data.classes.contains_key(name) {
                return true;
            }
            match data.parent {
                Some(p) => {
                    cur = p;
                },
                None => {
                    return false;
                },
            }
        }
    }

    /// The qualified name and the script that `multiname` resolves to, from
    /// the nearest domain of the chain that exports it; `None` where no domain
    /// does.
    pub fn get_defining_script(self, avm: &Avm2, multiname: &Multiname) -> (r: Result<
        Option<(QName, Script)>,
        Error,
    >)
        requires
            avm.wf(),
            avm.valid_domain(self),
        ensures
            match defining_script(avm, self, *multiname) {
                Some(found) => r matches Ok(Some(p)) && p.0@ == found.0 && p.1 == found.1,
                None => r matches Ok(None),
            },
            r matches Ok(Some(p)) ==> avm.valid_script(p.1),
    {
        let mut cur = self;
        loop
            invariant
                avm.wf(),
                avm.valid_domain(cur),
                defining_script(avm, self, *multiname) == defining_script(avm, cur, *multiname),
            decreases cur.index,
        {
            assert(avm.domain_wf(cur.index as int));
            let data = &avm.domains[cur.index];
            if let Some(name) = &multiname.local_name {
                if let Some(found) = data.defs.get_with_ns_for_multiname(multiname) {
                    proof {
                        lemma_first_match(avm.defs(cur), *multiname);
                        let i = first_match(avm.defs(cur), *multiname)->Some_0;
                        assert(avm.valid_script(avm.defs(cur)[i].1));
                    }
                    let (ns, script) = found;
                    return Ok(Some((QName::new(ns, name.clone()), script)));
                }
            } else {
                proof {
                    lemma_first_match(avm.defs(cur), *multiname);
                }
            }
            match data.parent {
                Some(p) => {
                    cur = p;
                },
                None => {
                    return Ok(None);
                },
            }
        }
    }

    /// Exports `script` under `name` into this domain, unless this domain or
    /// one of its ancestors already has a definition of that name: the first
    /// export of a name wins.
    pub fn export_definition(&mut self, name: QName, script: Script, avm: &mut Avm2)
        requires
            old(avm).wf(),
            old(avm).valid_domain(*old(self)),
            old(avm).valid_script(script),
        ensures
            *final(self) == *old(self),
            exported(old(avm), final(avm), *old(self), name@, script),
    {
        if self.has_definition(avm, &name) {
            return;
        }
        let i = self.index;
        assert(avm.domain_wf(i as int));
        avm.domains[i].defs.insert(name, script);
        proof {
            assert forall|e: Domain| #[trigger]
                old(avm).valid_domain(e) && e != *old(self) implies same_domain(
                old(avm),
                final(avm),
                e,
            ) by {
                assert(avm.domains@[e.index as int] == old(avm).domains@[e.index as int]);
            }
            assert forall|k: int|
                0 <= k < avm.domains@.len() implies #[trigger] avm.domain_wf(k) by {
                assert(old(avm).domain_wf(k));
                if k == i {
                    let s = avm.domains@[k].defs@;
                    assert forall|j: int| 0 <= j < s.len() implies avm.valid_script(
                        #[trigger] s[j].1,
                    ) by {
                        if j < old(avm).defs(*old(self)).len() {
                            assert(s[j] == old(avm).defs(*old(self))[j]);
                        }
                    }
                }
            }
            assert forall|k: int| 0 <= k < avm.classes@.len() implies #[trigger] avm.class_wf(
                k,
            ) by {
                assert(old(avm).class_wf(k));
            }
            assert forall|k: int| 0 <= k < avm.scripts@.len() implies #[trigger] avm.script_wf(
                k,
            ) by {
                assert(old(avm).script_wf(k));
            }
        }
    }

    /// The script that defines what `multiname` resolves to, with the name it
    /// resolved to; an error where no domain of the chain exports it.
    pub fn find_defining_script(self, avm: &Avm2, multiname: &Multiname) -> (r: Result<
        (QName, Script),
        Error,
    >)
        requires
            avm.wf(),
            avm.valid_domain(self),
        ensures
            match defining_script(avm, self, *multiname) {
                Some(found) => r matches Ok(p) && p.0@ == found.0 && p.1 == found.1,
                None => match multiname.local_name {
                    Some(n) => is_undefined_error(r, n@),
                    None => r matches Err(Error::UnnamedMultiname),
                },
            },
            r matches Ok(p) ==> avm.valid_script(p.1),
    {
        match self.get_defining_script(avm, multiname) {
            Ok(Some(found)) => Ok(found),
            _ => match &multiname.local_name {
                Some(n) => Err(Error::Reference { code: UNDEFINED_VARIABLE, name: n.clone() }),
                None => Err(Error::UnnamedMultiname),
            },
        }
    }

    /// The value of the global `name`, from the script that defines it in the
    /// nearest domain of the chain.
    pub fn get_defined_value(self, avm: &Avm2, name: &QName) -> (r: Result<Value, Error>)
        requires
            avm.wf(),
            avm.valid_domain(self),
        ensures
            defined_value_is(avm, self, name@, r),
            r matches Ok(v) ==> avm.valid_value(v),
    {
        let m = Multiname::from_qname(name);
        proof {
            lemma_defining_script_single(avm, self, m, name@);
        }
        match self.find_defining_script(avm, &m) {
            Ok(found) => {
                let (q, script) = found;
                Ok(script.global_value(avm, &q))
            },
            Err(e) => Err(e),
        }
    }

    /// The value that the text `name` names. A name of the form `Vector.<T>`
    /// (with or without the `__AS3__.vec::` package) is looked up as the
    /// vector class, with `T` looked up on its own and applied to it.
    pub fn get_defined_value_handling_vector(self, avm: &mut Avm2, name: &str) -> (r: Result<
        Value,
        Error,
    >)
        requires
            old(avm).wf(),
            old(avm).valid_domain(self),
        ensures
            final(avm).wf(),
            vector_lookup_is(old(avm), final(avm), self, name@, r),
    {
        let param_text = split_vector_name(name);
        let qname = match &param_text {
            Some(_) => QName::from_qualified_name("__AS3__.vec::Vector"),
            None => QName::from_qualified_name(name),
        };
        let res = self.get_defined_value(avm, &qname);
        match param_text {
            Some(t) => {
                let param_qname = QName::from_qualified_name(t.as_str());
                let param_value = self.get_defined_value(avm, &param_qname);
                match param_value {
                    Err(e) => Err(e),
                    Ok(param_value) => match res {
                        Ok(base) => apply(avm, &base, &param_value),
                        Err(e) => Err(e),
                    },
                }
            },
            None => res,
        }
    }

    /// The names exported into this domain itself (not its ancestors), in the
    /// order of export.
    pub fn get_defined_names(&self, avm: &Avm2) -> (r: Vec<QName>)
        requires
            avm.valid_domain(*self),
        ensures
            r@.len() == avm.defs(*self).len(),
            forall|i: int| 0 <= i < r@.len() ==> #[trigger] r@[i]@ == avm.defs(*self)[i].0,
    {
        avm.domains[self.index].defs.keys()
    }

    /// The class that `multiname` names, without type arguments.
    fn get_class_inner(self, avm: &Avm2, multiname: &Multiname) -> (r: Option<Class>)
        requires
            avm.wf(),
            avm.valid_domain(self),
        ensures
            r == class_inner(avm, self, *multiname),
            r matches Some(c) ==> avm.valid_class(c),
    {
        proof {
            lemma_class_inner_valid(avm, self, *multiname);
        }
        let mut cur = self;
        loop
            invariant
                avm.wf(),
                avm.valid_domain(cur),
                class_inner(avm, self, *multiname) == class_inner(avm, cur, *multiname),
                class_inner(avm, self, *multiname) matches Some(c) ==> avm.valid_class(c),
            decreases cur.index,
        {
            assert(avm.domain_wf(cur.index as int));
            let data = &avm.domains[cur.index];
            if let Some(c) = data.classes.get_for_multiname(multiname) {
                return Some(c);
            }
            match data.parent {
                Some(p) => {
                    cur = p;
                },
                None => {
                    return None;
                },
            }
        }
    }

    /// The class that `multiname` denotes: a generic class named with a type
    /// parameter is specialized with the class that the parameter denotes.
    /// `None` where a name in it does not resolve.
    pub fn get_class(self, multiname: &Multiname, avm: &mut Avm2) -> (r: Result<
        Option<Class>,
        Error,
    >)
        requires
            old(avm).wf(),
            old(avm).valid_domain(self),
        ensures
            final(avm).wf(),
            extends(old(avm), final(avm)),
            r == Ok::<Option<Class>, Error>(resolved_class(final(avm), self, *multiname)),
            resolved_class(final(avm), self, *multiname) is Some <==> class_resolvable(
                old(avm),
                self,
                *multiname,
            ),
            resolved_class(final(avm), self, *multiname) matches Some(c)
                ==> final(avm).valid_class(c),
        decreases multiname,
    {
        let class = self.get_class_inner(avm, multiname);
        proof {
            lemma_extends_refl(avm);
        }
        match class {
            None => Ok(None),
            Some(c) => match &multiname.param {
                None => Ok(Some(c)),
                Some(p) => {
                    if p.is_any_name() {
                        return Ok(Some(c));
                    }
                    let inner = self.get_class(p, avm);
                    match inner {
                        Ok(Some(pc)) => {
                            let ghost mid = *avm;
                            let s = Class::with_type_param(c, pc, avm);
                            proof {
                                lemma_extends_trans(old(avm), &mid, avm);
                                lemma_class_inner_frame(old(avm), avm, self, *multiname);
                                lemma_resolved_monotone(&mid, avm, self, **p);
                            }
                            Ok(Some(s))
                        },
                        _ => {
                            proof {
                                lemma_class_inner_frame(old(avm), avm, self, *multiname);
                            }
                            Ok(None)
                        },
                    }
                },
            },
        }
    }

    /// Exports `class` into this domain under its own name, unless this domain
    /// or one of its ancestors already has a class of that name.
    pub fn export_class(&self, class: Class, avm: &mut Avm2)
        requires
            old(avm).wf(),
            old(avm).valid_domain(*self),
            old(avm).valid_class(class),
        ensures
            class_exported(old(avm), final(avm), *self, class),
    {
        let name = avm.name_of_class(class);
        if self.has_class(avm, &name) {
            return;
        }
        let i = self.index;
        assert(avm.domain_wf(i as int));
        avm.domains[i].classes.insert(name, class);
        proof {
            assert forall|e: Domain| #[trigger]
                old(avm).valid_domain(e) && e != *self implies same_domain(
                old(avm),
                final(avm),
                e,
            ) by {
                assert(avm.domains@[e.index as int] == old(avm).domains@[e.index as int]);
            }
            assert forall|k: int|
                0 <= k < avm.domains@.len() implies #[trigger] avm.domain_wf(k) by {
                assert(old(avm).domain_wf(k));
                if k == i {
                    let t = avm.domains@[k].classes@;
                    assert forall|j: int| 0 <= j < t.len() implies avm.valid_class(
                        #[trigger] t[j].1,
                    ) by {
                        if j < old(avm).class_defs(*self).len() {
                            assert(t[j] == old(avm).class_defs(*self)[j]);
                        }
                    }
                }
            }
            assert forall|k: int| 0 <= k < avm.classes@.len() implies #[trigger] avm.class_wf(
                k,
            ) by {
                assert(old(avm).class_wf(k));
            }
            assert forall|k: int| 0 <= k < avm.scripts@.len() implies #[trigger] avm.script_wf(
                k,
            ) by {
                assert(old(avm).script_wf(k));
            }
        }
    }

    /// Gives this domain the memory `domain_memory`, in place of any it had.
    pub fn set_domain_memory(&self, avm: &mut Avm2, domain_memory: ByteArray)
        requires
            old(avm).wf(),
            old(avm).valid_domain(*self),
        ensures
            final(avm).wf(),
            only_memory_of(old(avm), final(avm), *self),
            final(avm).memory(*self) == Some(domain_memory@),
    {
        let ghost m = domain_memory@;
        avm.domains[self.index].domain_memory = Some(domain_memory);
        proof {
            assert forall|i: int|
                0 <= i < old(avm).domains@.len() && i != (*self).index implies #[trigger] avm.domains@[i]
                == old(avm).domains@[i] by {}
            assert forall|k: int|
                0 <= k < avm.domains@.len() implies #[trigger] avm.domain_wf(k) by {
                assert(old(avm).domain_wf(k));
            }
            assert forall|k: int| 0 <= k < avm.classes@.len() implies #[trigger] avm.class_wf(
                k,
            ) by {
                assert(old(avm).class_wf(k));
            }
            assert forall|k: int| 0 <= k < avm.scripts@.len() implies #[trigger] avm.script_wf(
                k,
            ) by {
                assert(old(avm).script_wf(k));
            }
        }
    }

    /// The memory of this domain.
    pub fn domain_memory(self, avm: &Avm2) -> (r: &ByteArray)
        requires
            avm.valid_domain(self),
            avm.memory(self) is Some,
        ensures
            avm.memory(self) == Some(r@),
    {
        avm.domains[self.index].domain_memory.as_ref().unwrap()
    }

    /// The memory of this domain, to change in place. Only that memory
    /// changes through the reference.
    pub fn domain_memory_mut(self, avm: &mut Avm2) -> (r: &mut ByteArray)
        requires
            old(avm).wf(),
            old(avm).valid_domain(self),
            old(avm).memory(self) is Some,
        ensures
            old(avm).memory(self) == Some(r@),
            only_memory_of(old(avm), final(avm), self),
            final(avm).memory(self) == Some(final(r)@),
    {
        avm.domains[self.index].domain_memory.as_mut().unwrap()
    }

    /// Gives this domain a memory of the default length, unless it has one.
    pub fn init_default_domain_memory(self, avm: &mut Avm2)
        requires
            old(avm).wf(),
            old(avm).valid_domain(self),
        ensures
            final(avm).wf(),
            only_memory_of(old(avm), final(avm), self),
            old(avm).memory(self) is Some ==> final(avm).memory(self) == old(avm).memory(self),
            old(avm).memory(self) is None ==> final(avm).memory(self) == Some(
                zeros(DEFAULT_MEMORY_LENGTH as nat),
            ),
    {
        let i = self.index;
        if avm.domains[i].domain_memory.is_none() {
            let m = ByteArray::with_length(DEFAULT_MEMORY_LENGTH);
            avm.domains[i].domain_memory = Some(m);
        }
        proof {
            assert forall|i: int|
                0 <= i < old(avm).domains@.len() && i != self.index implies #[trigger] avm.domains@[i]
                == old(avm).domains@[i] by {}
            assert forall|k: int|
                0 <= k < avm.domains@.len() implies #[trigger] avm.domain_wf(k) by {
                assert(old(avm).domain_wf(k));
            }
            assert forall|k: int| 0 <= k < avm.classes@.len() implies #[trigger] avm.class_wf(
                k,
            ) by {
                assert(old(avm).class_wf(k));
            }
            assert forall|k: int| 0 <= k < avm.scripts@.len() implies #[trigger] avm.script_wf(
                k,
            ) by {
                assert(old(avm).script_wf(k));
            }
        }
    }
}

} // verus!
