//! Scripts and the top-level definitions that running them produces.

use vstd::prelude::*;
use crate::avm::{Avm2, Script, ScriptData, global_named};
use crate::names::QName;
use crate::value::Value;

verus! {

/// `global_named` finds the earliest global with the name.
proof fn lemma_global_named(s: Seq<(crate::names::QNameView, Value)>, q: crate::names::QNameView)
    ensures
        global_named(s, q) matches Some(v) ==> exists|i: int|
            0 <= i < s.len() && s[i].0 == q && s[i].1 == v,
        global_named(s, q) is None ==> forall|i: int| 0 <= i < s.len() ==> #[trigger] s[i].0 != q,
    decreases s.len(),
{
    if s.len() > 0 {
        lemma_global_named(s.drop_last(), q);
        assert forall|j: int| 0 <= j < s.len() - 1 implies #[trigger] s[j].0 == s.drop_last()[j].0 by {}
        if let Some(v) = global_named(s.drop_last(), q) {
            let i = choose|i: int| 0 <= i < s.drop_last().len() && s.drop_last()[i].0 == q && s.drop_last()[i].1 == v;
            assert(s[i] == s.drop_last()[i]);
        }
    }
}

/// Once a prefix of `s` has a global named `q`, the whole of `s` gives the same.
proof fn lemma_global_named_prefix(s: Seq<(crate::names::QNameView, Value)>, q: crate::names::QNameView, k: int)
    requires
        0 <= k <= s.len(),
        global_named(s.take(k), q) is Some,
    ensures
        global_named(s, q) == global_named(s.take(k), q),
    decreases s.len(),
{
    if k == s.len() {
        assert(s.take(k) =~= s);
    } else {
        assert(s.drop_last().take(k) =~= s.take(k));
        lemma_global_named_prefix(s.drop_last(), q, k);
    }
}

impl Avm2 {
    /// Adds a script with no definitions yet.
    pub fn new_script(&mut self) -> (r: Script)
        requires
            old(self).wf(),
        ensures
            final(self).wf(),
            r.index == old(self).script_count(),
            final(self).script_count() == old(self).script_count() + 1,
            final(self).globals(r).len() == 0,
            old(self).same_classes(final(self)),
            forall|s: Script| #[trigger]
                old(self).valid_script(s) ==> final(self).globals(s) == old(self).globals(s),
            old(self).same_domains(final(self)),
    {
        let r = Script { index: self.scripts.len() };
        self.scripts.push(ScriptData { globals: Vec::new() });
        proof {
            assert(self.globals(r) =~= Seq::empty());
            assert forall|s: Script| #[trigger] old(self).valid_script(s) implies self.globals(s)
                == old(self).globals(s) by {
                assert(self.scripts@[s.index as int] == old(self).scripts@[s.index as int]);
            }
            assert forall|i: int| 0 <= i < self.domains@.len() implies #[trigger] self.domain_wf(
                i,
            ) by {
                assert(old(self).domain_wf(i));
            }
            assert forall|i: int| 0 <= i < self.classes@.len() implies #[trigger] self.class_wf(
                i,
            ) by {
                assert(old(self).class_wf(i));
            }
            assert forall|i: int| 0 <= i < self.scripts@.len() implies #[trigger] self.script_wf(
                i,
            ) by {
                if i < old(self).scripts@.len() {
                    assert(old(self).script_wf(i));
                    assert(self.scripts@[i] == old(self).scripts@[i]);
                }
            }
        }
        r
    }
}

impl Script {
    /// Records a top-level definition that running the script produced.
    pub fn define_global(self, avm: &mut Avm2, name: QName, value: Value)
        requires
            old(avm).wf(),
            old(avm).valid_script(self),
            old(avm).valid_value(value),
        ensures
            final(avm).wf(),
            final(avm).script_count() == old(avm).script_count(),
            final(avm).globals(self) == old(avm).globals(self).push((name@, value)),
            forall|s: Script| #[trigger]
                old(avm).valid_script(s) && s != self ==> final(avm).globals(s) == old(
                    avm,
                ).globals(s),
            old(avm).same_classes(final(avm)),
            old(avm).same_domains(final(avm)),
    {
        let ghost q = name@;
        let ghost v = value;
        avm.scripts[self.index].globals.push((name, value));
        proof {
            let i = self.index as int;
            assert(avm.scripts@.len() == old(avm).scripts@.len());
            assert(avm.domains == old(avm).domains);
            assert(avm.globals(self) =~= old(avm).globals(self).push((q, v)));
            assert forall|s: Script| #[trigger]
                old(avm).valid_script(s) && s != self implies avm.globals(s) == old(avm).globals(
                s,
            ) by {
                assert(avm.scripts@[s.index as int] == old(avm).scripts@[s.index as int]);
            }
            assert forall|k: int| 0 <= k < avm.domains@.len() implies #[trigger] avm.domain_wf(
                k,
            ) by {
                assert(old(avm).domain_wf(k));
            }
            assert forall|k: int| 0 <= k < avm.classes@.len() implies #[trigger] avm.class_wf(
                k,
            ) by {
                assert(old(avm).class_wf(k));
            }
            assert forall|k: int| 0 <= k < avm.scripts@.len() implies #[trigger] avm.script_wf(
                k,
            ) by {
                assert(old(avm).script_wf(k));
                if k != i {
                    assert(avm.scripts@[k] == old(avm).scripts@[k]);
                } else {
                    let g = avm.scripts@[k].globals@;
                    assert forall|j: int| 0 <= j < g.len() implies avm.valid_value(
                        #[trigger] g[j].1,
                    ) by {
                        if j < g.len() - 1 {
                            assert(g[j] == old(avm).scripts@[k].globals@[j]);
                        }
                    }
                }
            }
        }
    }

    /// The value of the global `name` of this script: the first definition
    /// of that name, or `undefined` where there is none.
    pub fn global_value(self, avm: &Avm2, name: &QName) -> (r: Value)
        requires
            avm.wf(),
            avm.valid_script(self),
        ensures
            r == match global_named(avm.globals(self), name@) {
                Some(v) => v,
                None => Value::Undefined,
            },
            avm.valid_value(r),
    {
        let g = &avm.scripts[self.index].globals;
        let ghost s = avm.globals(self);
        proof {
            lemma_global_named(s, name@);
            assert(avm.script_wf(self.index as int));
        }
        let mut i: usize = 0;
        while i < g.len()
            invariant
                i <= g@.len(),
                s.len() == g@.len(),
                s == avm.globals(self),
                g@ == avm.scripts@[self.index as int].globals@,
                global_named(s.take(i as int), name@) is None,
                avm.wf(),
                avm.valid_script(self),
            decreases g@.len() - i,
        {
            assert(s.take(i + 1).drop_last() =~= s.take(i as int));
            assert(s[i as int] == (g@[i as int].0@, g@[i as int].1));
            if g[i].0.same_as(name) {
                proof {
                    lemma_global_named_prefix(s, name@, i + 1);
                    assert(avm.script_wf(self.index as int));
                    assert(avm.valid_value(g@[i as int].1));
                }
                return g[i].1.copied();
            }
            i = i + 1;
        }
        assert(s.take(i as int) =~= s);
        Value::Undefined
    }
}

} // verus!
