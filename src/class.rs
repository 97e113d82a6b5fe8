//! Classes, and the specialization of generic classes with a type argument.

use vstd::prelude::*;
use crate::avm::{Avm2, Class, ClassData, first_with_key};
use crate::error::Error;
use crate::names::QName;
use crate::value::Value;

verus! {

/// The local name of the specialization of a class named `base` with a class
/// named `param`: `base.<param>`.
pub open spec fn specialized_local_name(base: Seq<char>, param: Seq<char>) -> Seq<char> {
    base + ".<"@ + param + ">"@
}

/// `first_with_key` picks the earliest pair with the key, and is `None` only
/// where no pair has it.
pub proof fn lemma_first_with_key(s: Seq<(Class, Class)>, k: Class)
    ensures
        first_with_key(s, k) matches Some(i) ==> {
            &&& 0 <= i < s.len()
            &&& s[i].0 == k
            &&& forall|j: int| 0 <= j < i ==> #[trigger] s[j].0 != k
        },
        first_with_key(s, k) is None ==> forall|j: int| 0 <= j < s.len() ==> #[trigger] s[j].0 != k,
    decreases s.len(),
{
    if s.len() > 0 {
        lemma_first_with_key(s.drop_last(), k);
        assert forall|j: int| 0 <= j < s.len() - 1 implies #[trigger] s[j].0 == s.drop_last()[j].0 by {}
    }
}

/// Adding a pair at the end keeps every key that was found where it was found.
pub proof fn lemma_first_with_key_push(s: Seq<(Class, Class)>, x: (Class, Class), k: Class)
    ensures
        first_with_key(s, k) is Some ==> first_with_key(s.push(x), k) == first_with_key(s, k),
        first_with_key(s, k) is None ==> first_with_key(s.push(x), k) == if x.0 == k {
            Some(s.len() as int)
        } else {
            None
        },
{
    assert(s.push(x).drop_last() =~= s);
}

/// `after` is `before` with classes added, and specializations recorded: no
/// domain, script or class that `before` holds has changed, and every
/// specialization that `before` records is recorded the same.
pub open(crate) spec fn extends(before: &Avm2, after: &Avm2) -> bool {
    &&& after.domains == before.domains
    &&& after.scripts == before.scripts
    &&& before.class_count() <= after.class_count()
    &&& forall|c: Class| #[trigger]
        before.valid_class(c) ==> {
            &&& after.class_name(c) == before.class_name(c)
            &&& after.is_generic(c) == before.is_generic(c)
            &&& after.class_param(c) == before.class_param(c)
        }
    &&& forall|c: Class, p: Class|
        before.valid_class(c) && (#[trigger] before.applied(c, p)) is Some ==> after.applied(c, p)
            == before.applied(c, p)
}

/// What specializing `c` with `p` does, where `before` is the store before and
/// `after` the store after: the first time, it adds one class, named
/// `c.<p>`, that records `p` as its argument, and records it on `c`; after
/// that, it changes nothing. Either way the result is `after.applied(c, p)`.
pub open(crate) spec fn specialized(before: &Avm2, after: &Avm2, c: Class, p: Class) -> bool {
    &&& after.wf()
    &&& extends(before, after)
    &&& after.applied(c, p) matches Some(r) && after.valid_class(r)
    &&& before.applied(c, p) is Some ==> *after == *before
    &&& before.applied(c, p) is None ==> {
        let r = after.applied(c, p)->Some_0;
        &&& r.index == before.class_count()
        &&& after.class_count() == before.class_count() + 1
        &&& after.class_param(r) == Some(p)
        &&& !after.is_generic(r)
        &&& after.class_name(r).namespace == before.class_name(c).namespace
        &&& after.class_name(r).local_name == specialized_local_name(
            before.class_name(c).local_name,
            before.class_name(p).local_name,
        )
    }
}

/// `extends` holds of a store and itself.
pub proof fn lemma_extends_refl(a: &Avm2)
    ensures
        extends(a, a),
{
}

/// `extends` composes.
pub proof fn lemma_extends_trans(a: &Avm2, b: &Avm2, c: &Avm2)
    requires
        extends(a, b),
        extends(b, c),
    ensures
        extends(a, c),
{
    assert forall|x: Class| #[trigger] a.valid_class(x) implies {
        &&& c.class_name(x) == a.class_name(x)
        &&& c.is_generic(x) == a.is_generic(x)
        &&& c.class_param(x) == a.class_param(x)
    } by {
        assert(b.valid_class(x));
    }
    assert forall|x: Class, p: Class|
        a.valid_class(x) && (#[trigger] a.applied(x, p)) is Some implies c.applied(x, p)
        == a.applied(x, p) by {
        assert(b.valid_class(x));
        assert(b.applied(x, p) is Some);
    }
}

impl Avm2 {
    /// Adds a class named `name`; `is_generic` says whether it takes a type
    /// parameter.
    pub fn new_class(&mut self, name: QName, is_generic: bool) -> (r: Class)
        requires
            old(self).wf(),
        ensures
            final(self).wf(),
            extends(old(self), final(self)),
            r.index == old(self).class_count(),
            final(self).class_count() == old(self).class_count() + 1,
            final(self).class_name(r) == name@,
            final(self).is_generic(r) == is_generic,
            final(self).class_param(r) is None,
            forall|p: Class| final(self).applied(r, p) is None,
    {
        let r = Class { index: self.classes.len() };
        self.classes.push(ClassData { name, is_generic, param: None, applications: Vec::new() });
        proof {
            lemma_push_class_keeps_wf(old(self), self);
        }
        r
    }

    /// The name of the class `c`.
    pub fn name_of_class(&self, c: Class) -> (r: QName)
        requires
            self.valid_class(c),
        ensures
            r@ == self.class_name(c),
    {
        self.classes[c.index].name.copied()
    }

    /// The type argument that `c` was specialized with, if any.
    pub fn param_of_class(&self, c: Class) -> (r: Option<Class>)
        requires
            self.valid_class(c),
        ensures
            r == self.class_param(c),
    {
        self.classes[c.index].param
    }

    /// Whether `c` takes a type parameter.
    pub fn class_is_generic(&self, c: Class) -> (r: bool)
        requires
            self.valid_class(c),
        ensures
            r == self.is_generic(c),
    {
        self.classes[c.index].is_generic
    }
}

/// A class pushed at the end of a well-formed store, with valid handles in it
/// and no specializations, leaves it well-formed and extends it.
proof fn lemma_push_class_keeps_wf(before: &Avm2, after: &Avm2)
    requires
        before.wf(),
        after.domains == before.domains,
        after.scripts == before.scripts,
        after.classes@.len() == before.classes@.len() + 1,
        forall|i: int| 0 <= i < before.classes@.len() ==> after.classes@[i] == before.classes@[i],
        after.classes@.last().param matches Some(p) ==> before.valid_class(p),
        after.classes@.last().applications@.len() == 0,
    ensures
        after.wf(),
        extends(before, after),
{
    assert forall|i: int| 0 <= i < after.domains@.len() implies #[trigger] after.domain_wf(i) by {
        assert(before.domain_wf(i));
    }
    assert forall|i: int| 0 <= i < after.classes@.len() implies #[trigger] after.class_wf(i) by {
        if i < before.classes@.len() {
            assert(before.class_wf(i));
        }
    }
    assert forall|i: int| 0 <= i < after.scripts@.len() implies #[trigger] after.script_wf(i) by {
        assert(before.script_wf(i));
    }
}

impl Class {
    /// The specialization of `this` with the type argument `param`. It is made
    /// once and recorded on `this`; later calls return the recorded class.
    pub fn with_type_param(this: Class, param: Class, avm: &mut Avm2) -> (r: Class)
        requires
            old(avm).wf(),
            old(avm).valid_class(this),
            old(avm).valid_class(param),
        ensures
            specialized(old(avm), final(avm), this, param),
            final(avm).applied(this, param) == Some(r),
    {
        let i = this.index;
        let n = avm.classes[i].applications.len();
        let mut k: usize = 0;
        while k < n
            invariant
                n == avm.classes@[i as int].applications@.len(),
                i == this.index,
                old(avm).wf(),
                old(avm).valid_class(this),
                *avm == *old(avm),
                k <= n,
                forall|j: int| 0 <= j < k ==> #[trigger] avm.classes@[i as int].applications@[j].0 != param,
            decreases n - k,
        {
            let app = avm.classes[i].applications[k];
            if app.0 == param {
                proof {
                    lemma_first_with_key(avm.classes@[i as int].applications@, param);
                    lemma_extends_refl(avm);
                    assert(avm.class_wf(i as int));
                }
                return app.1;
            }
            k = k + 1;
        }
        proof {
            lemma_first_with_key(avm.classes@[i as int].applications@, param);
        }
        let base_name = &avm.classes[i].name;
        let local = base_name.local_name.clone().concat(".<").concat(
            avm.classes[param.index].name.local_name.as_str(),
        ).concat(">");
        let name = QName { namespace: base_name.namespace.copied(), local_name: local };
        let r = Class { index: avm.classes.len() };
        avm.classes.push(
            ClassData { name, is_generic: false, param: Some(param), applications: Vec::new() },
        );
        let ghost mid = *avm;
        proof {
            lemma_push_class_keeps_wf(old(avm), &mid);
        }
        avm.classes[i].applications.push((param, r));
        proof {
            let apps = mid.classes@[i as int].applications@;
            assert(avm.classes@.len() == mid.classes@.len());
            assert(avm.classes@[i as int].applications@ == apps.push((param, r)));
            assert(avm.classes@[i as int].name == mid.classes@[i as int].name);
            assert(avm.classes@[i as int].param == mid.classes@[i as int].param);
            assert(avm.classes@[i as int].is_generic == mid.classes@[i as int].is_generic);
            assert forall|j: int| 0 <= j < avm.classes@.len() && j != i implies avm.classes@[j]
                == mid.classes@[j] by {}
            lemma_first_with_key_push(apps, (param, r), param);
            assert(avm.applied(this, param) == Some(r));
            assert forall|c: Class, p: Class|
                old(avm).valid_class(c) && (#[trigger] old(avm).applied(c, p)) is Some implies avm.applied(
                c,
                p,
            ) == old(avm).applied(c, p) by {
                assert(mid.classes@[c.index as int] == old(avm).classes@[c.index as int]);
                if c.index == i {
                    lemma_first_with_key_push(apps, (param, r), p);
                    lemma_first_with_key(apps, p);
                } else {
                    assert(avm.classes@[c.index as int] == mid.classes@[c.index as int]);
                }
            }
            assert forall|c: Class| #[trigger] old(avm).valid_class(c) implies {
                &&& avm.class_name(c) == old(avm).class_name(c)
                &&& avm.is_generic(c) == old(avm).is_generic(c)
                &&& avm.class_param(c) == old(avm).class_param(c)
            } by {
                assert(mid.valid_class(c));
            }
            assert forall|j: int| 0 <= j < avm.domains@.len() implies #[trigger] avm.domain_wf(j) by {
                assert(mid.domain_wf(j));
            }
            assert forall|j: int| 0 <= j < avm.classes@.len() implies #[trigger] avm.class_wf(j) by {
                assert(mid.class_wf(j));
                if j != i {
                    assert(avm.classes@[j] == mid.classes@[j]);
                }
                if j == i {
                    let s = avm.classes@[j].applications@;
                    assert forall|q: int| 0 <= q < s.len() implies avm.valid_class(#[trigger] s[q].0)
                        && avm.valid_class(s[q].1) by {
                        if q < apps.len() {
                            assert(s[q] == apps[q]);
                        } else {
                            assert(s[q] == (param, r));
                        }
                    }
                }
            }
            assert forall|j: int| 0 <= j < avm.scripts@.len() implies #[trigger] avm.script_wf(j) by {
                assert(mid.script_wf(j));
            }
        }
        r
    }
}

/// Specializing a class twice with the same argument: the second time
/// changes nothing and gives the class that the first time gave.
pub proof fn lemma_specialization_idempotent(h0: &Avm2, h1: &Avm2, h2: &Avm2, c: Class, p: Class)
    requires
        specialized(h0, h1, c, p),
        specialized(h1, h2, c, p),
    ensures
        *h2 == *h1,
        h2.applied(c, p) == h1.applied(c, p),
{
}

/// What applying the type argument `arg` to `base` gives, where `before` is
/// the store before and `after` the store after: a generic class applied to
/// `null` (any type) is itself, applied to a class it is that specialization;
/// anything else is an error and changes nothing.
pub open(crate) spec fn applies_to(
    before: &Avm2,
    after: &Avm2,
    base: Value,
    arg: Value,
    r: Result<Value, Error>,
) -> bool {
    match base {
        Value::Class(c) => if before.is_generic(c) {
            match arg {
                Value::Null => r == Ok::<Value, Error>(Value::Class(c)) && *after == *before,
                Value::Class(p) => specialized(before, after, c, p) && r == Ok::<Value, Error>(
                    Value::Class(after.applied(c, p)->Some_0),
                ),
                _ => r matches Err(Error::BadTypeArgument) && *after == *before,
            }
        } else {
            r matches Err(Error::NotGeneric) && *after == *before
        },
        _ => r matches Err(Error::NotGeneric) && *after == *before,
    }
}

/// Applies the type argument `arg` to the class value `base`.
pub fn apply(avm: &mut Avm2, base: &Value, arg: &Value) -> (r: Result<Value, Error>)
    requires
        old(avm).wf(),
        old(avm).valid_value(*base),
        old(avm).valid_value(*arg),
    ensures
        applies_to(old(avm), final(avm), *base, *arg, r),
{
    match base {
        Value::Class(c) => {
            if !avm.classes[c.index].is_generic {
                return Err(Error::NotGeneric);
            }
            match arg {
                Value::Null => Ok(Value::Class(*c)),
                Value::Class(p) => {
                    let s = Class::with_type_param(*c, *p, avm);
                    Ok(Value::Class(s))
                },
                _ => Err(Error::BadTypeArgument),
            }
        },
        _ => Err(Error::NotGeneric),
    }
}

} // verus!
