//! The store that holds every domain, class and script, and the handles
//! through which they are reached.

use vstd::prelude::*;
use crate::memory::ByteArray;
use crate::names::{QName, QNameView};
use crate::property_map::PropertyMap;
use crate::value::Value;

verus! {

/// A handle to an application domain. Two handles are equal exactly when they
/// denote the same domain.
#[derive(Clone, Copy, Debug, PartialEq, Eq, Structural)]
pub struct Domain {
    pub index: usize,
}

/// A handle to a class.
#[derive(Clone, Copy, Debug, PartialEq, Eq, Structural)]
pub struct Class {
    pub index: usize,
}

/// A handle to a script.
#[derive(Clone, Copy, Debug, PartialEq, Eq, Structural)]
pub struct Script {
    pub index: usize,
}

pub struct DomainData {
    /// The definitions exported into this domain, with the scripts that
    /// exported them.
    pub(crate) defs: PropertyMap<Script>,
    /// The classes exported into this domain.
    pub(crate) classes: PropertyMap<Class>,
    /// The parent domain; it was made before this one.
    pub(crate) parent: Option<Domain>,
    /// The memory of the domain; absent only on a domain made before the
    /// memory could be made.
    pub(crate) domain_memory: Option<ByteArray>,
}

pub struct ClassData {
    pub(crate) name: QName,
    /// Whether the class takes a type parameter.
    pub(crate) is_generic: bool,
    /// The type argument that this class was specialized with, if any.
    pub(crate) param: Option<Class>,
    /// The specializations made of this class so far: type argument and result.
    pub(crate) applications: Vec<(Class, Class)>,
}

pub struct ScriptData {
    /// The top-level definitions that running the script produced.
    pub(crate) globals: Vec<(QName, Value)>,
}

/// The index of the first pair of `s` whose first item is `k`.
pub open spec fn first_with_key(s: Seq<(Class, Class)>, k: Class) -> Option<int>
    decreases s.len(),
{
    if s.len() == 0 {
        None
    } else {
        match first_with_key(s.drop_last(), k) {
            Some(i) => Some(i),
            None => if s.last().0 == k {
                Some(s.len() - 1)
            } else {
                None
            },
        }
    }
}

/// The value of the first global of `s` named `q`.
pub open spec fn global_named(s: Seq<(QNameView, Value)>, q: QNameView) -> Option<Value>
    decreases s.len(),
{
    if s.len() == 0 {
        None
    } else {
        match global_named(s.drop_last(), q) {
            Some(v) => Some(v),
            None => if s.last().0 == q {
                Some(s.last().1)
            } else {
                None
            },
        }
    }
}

/// Every domain, class and script of a virtual machine.
pub struct Avm2 {
    pub(crate) domains: Vec<DomainData>,
    pub(crate) classes: Vec<ClassData>,
    pub(crate) scripts: Vec<ScriptData>,
}

impl Avm2 {
    pub open(crate) spec fn domain_count(&self) -> nat {
        self.domains@.len()
    }

    pub open(crate) spec fn class_count(&self) -> nat {
        self.classes@.len()
    }

    pub open(crate) spec fn script_count(&self) -> nat {
        self.scripts@.len()
    }

    /// `other` holds the same classes as this store.
    pub open(crate) spec fn same_classes(&self, other: &Avm2) -> bool {
        other.classes == self.classes
    }

    /// `other` holds the same domains as this store.
    pub open(crate) spec fn same_domains(&self, other: &Avm2) -> bool {
        other.domains == self.domains
    }

    /// `other` holds the same scripts as this store.
    pub open(crate) spec fn same_scripts(&self, other: &Avm2) -> bool {
        other.scripts == self.scripts
    }

    pub open(crate) spec fn valid_domain(&self, d: Domain) -> bool {
        d.index < self.domains@.len()
    }

    pub open(crate) spec fn valid_class(&self, c: Class) -> bool {
        c.index < self.classes@.len()
    }

    pub open(crate) spec fn valid_script(&self, s: Script) -> bool {
        s.index < self.scripts@.len()
    }

    pub open(crate) spec fn valid_value(&self, v: Value) -> bool {
        v matches Value::Class(c) ==> self.valid_class(c)
    }

    /// The scripts exported into `d`, by name, in the order of export.
    pub open(crate) spec fn defs(&self, d: Domain) -> Seq<(QNameView, Script)> {
        self.domains@[d.index as int].defs@
    }

    /// The classes exported into `d`, by name, in the order of export.
    pub open(crate) spec fn class_defs(&self, d: Domain) -> Seq<(QNameView, Class)> {
        self.domains@[d.index as int].classes@
    }

    pub open(crate) spec fn parent(&self, d: Domain) -> Option<Domain> {
        self.domains@[d.index as int].parent
    }

    /// The contents of the memory of `d`, if it has one.
    pub open(crate) spec fn memory(&self, d: Domain) -> Option<Seq<u8>> {
        match self.domains@[d.index as int].domain_memory {
            Some(m) => Some(m@),
            None => None,
        }
    }

    pub open(crate) spec fn class_name(&self, c: Class) -> QNameView {
        self.classes@[c.index as int].name@
    }

    pub open(crate) spec fn is_generic(&self, c: Class) -> bool {
        self.classes@[c.index as int].is_generic
    }

    pub open(crate) spec fn class_param(&self, c: Class) -> Option<Class> {
        self.classes@[c.index as int].param
    }

    /// The specialization of `c` with the type argument `p` made so far, if any.
    pub open(crate) spec fn applied(&self, c: Class, p: Class) -> Option<Class> {
        let apps = self.classes@[c.index as int].applications@;
        match first_with_key(apps, p) {
            Some(i) => Some(apps[i].1),
            None => None,
        }
    }

    /// The globals of the script `s`.
    pub open(crate) spec fn globals(&self, s: Script) -> Seq<(QNameView, Value)> {
        self.scripts@[s.index as int].globals@.map_values(|e: (QName, Value)| (e.0@, e.1))
    }

    pub open(crate) spec fn domain_wf(&self, i: int) -> bool {
        let d = self.domains@[i];
        &&& d.parent matches Some(p) ==> p.index < i
        &&& d.defs.wf()
        &&& d.classes.wf()
        &&& forall|k: int| 0 <= k < d.defs@.len() ==> self.valid_script(#[trigger] d.defs@[k].1)
        &&& forall|k: int|
            0 <= k < d.classes@.len() ==> self.valid_class(#[trigger] d.classes@[k].1)
    }

    pub open(crate) spec fn class_wf(&self, i: int) -> bool {
        let c = self.classes@[i];
        &&& c.param matches Some(p) ==> self.valid_class(p)
        &&& forall|k: int|
            0 <= k < c.applications@.len() ==> self.valid_class(#[trigger] c.applications@[k].0)
                && self.valid_class(c.applications@[k].1)
    }

    pub open(crate) spec fn script_wf(&self, i: int) -> bool {
        forall|k: int|
            0 <= k < self.scripts@[i].globals@.len() ==> self.valid_value(
                #[trigger] self.scripts@[i].globals@[k].1,
            )
    }

    /// Every handle held in the store is valid, and each parent was made
    /// before its children, so that no chain of parents comes back on itself.
    pub open(crate) spec fn wf(&self) -> bool {
        &&& forall|i: int| 0 <= i < self.domains@.len() ==> #[trigger] self.domain_wf(i)
        &&& forall|i: int| 0 <= i < self.classes@.len() ==> #[trigger] self.class_wf(i)
        &&& forall|i: int| 0 <= i < self.scripts@.len() ==> #[trigger] self.script_wf(i)
    }

    /// An empty store.
    pub fn new() -> (r: Avm2)
        ensures
            r.wf(),
            r.domain_count() == 0,
            r.class_count() == 0,
            r.script_count() == 0,
    {
        Avm2 { domains: Vec::new(), classes: Vec::new(), scripts: Vec::new() }
    }
}

} // verus!
