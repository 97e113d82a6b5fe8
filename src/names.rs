//! Namespaces, qualified names and multinames.

use vstd::prelude::*;
use crate::text::{
    ends_with, find, first_occurrence, has_prefix, has_suffix, last_occurrence,
    lemma_first_occurrence_minimal, rfind, starts_with, substring,
};

verus! {

/// A namespace, identified by its URI. The public namespace has the empty URI.
#[derive(Debug)]
pub struct Namespace {
    pub uri: String,
}

impl View for Namespace {
    type V = Seq<char>;

    open spec fn view(&self) -> Seq<char> {
        self.uri@
    }
}

impl Namespace {
    /// The public namespace.
    pub fn public() -> (r: Namespace)
        ensures
            r@ == Seq::<char>::empty(),
    {
        Namespace { uri: String::new() }
    }

    /// The namespace of a package.
    pub fn package(uri: &str) -> (r: Namespace)
        ensures
            r@ == uri@,
    {
        Namespace { uri: String::from_str(uri) }
    }

    /// A second namespace with the same URI.
    pub fn copied(&self) -> (r: Namespace)
        ensures
            r@ == self@,
    {
        Namespace { uri: self.uri.clone() }
    }

    /// Exact comparison of two namespaces.
    pub fn same_as(&self, other: &Namespace) -> (r: bool)
        ensures
            r == (self@ == other@),
    {
        self.uri == other.uri
    }
}

/// What a qualified name is: a namespace URI and a local name.
pub struct QNameView {
    pub namespace: Seq<char>,
    pub local_name: Seq<char>,
}

/// A (namespace, local name) pair that identifies one definition.
#[derive(Debug)]
pub struct QName {
    pub namespace: Namespace,
    pub local_name: String,
}

impl View for QName {
    type V = QNameView;

    open spec fn view(&self) -> QNameView {
        QNameView { namespace: self.namespace@, local_name: self.local_name@ }
    }
}

impl QName {
    pub fn new(namespace: Namespace, local_name: String) -> (r: QName)
        ensures
            r@ == (QNameView { namespace: namespace@, local_name: local_name@ }),
    {
        QName { namespace, local_name }
    }

    /// A second qualified name equal to this one.
    pub fn copied(&self) -> (r: QName)
        ensures
            r@ == self@,
    {
        QName { namespace: self.namespace.copied(), local_name: self.local_name.clone() }
    }

    /// Exact comparison of two qualified names.
    pub fn same_as(&self, other: &QName) -> (r: bool)
        ensures
            r == (self@ == other@),
    {
        self.namespace.same_as(&other.namespace) && self.local_name == other.local_name
    }
}


/// A name reference: a local name (absent for the "any name" wildcard), the
/// namespaces that it may stand in, and an optional type parameter.
pub struct Multiname {
    pub namespaces: Vec<Namespace>,
    pub local_name: Option<String>,
    pub param: Option<Box<Multiname>>,
}

impl Multiname {
    /// `ns` is one of the candidate namespaces.
    pub open spec fn in_namespace_set(&self, ns: Seq<char>) -> bool {
        exists|i: int| 0 <= i < self.namespaces@.len() && #[trigger] self.namespaces@[i]@ == ns
    }

    /// The qualified name `q` is one that this multiname denotes.
    pub open spec fn denotes(&self, q: QNameView) -> bool {
        &&& self.local_name is Some
        &&& self.local_name->Some_0@ == q.local_name
        &&& self.in_namespace_set(q.namespace)
    }

    /// A multiname that denotes exactly one qualified name.
    pub fn from_qname(q: &QName) -> (r: Multiname)
        ensures
            r.namespaces@.len() == 1,
            r.namespaces@[0]@ == q@.namespace,
            r.local_name matches Some(n) && n@ == q@.local_name,
            r.param is None,
            forall|x: QNameView| r.denotes(x) <==> x == q@,
    {
        let mut namespaces: Vec<Namespace> = Vec::new();
        namespaces.push(q.namespace.copied());
        let r = Multiname { namespaces, local_name: Some(q.local_name.clone()), param: None };
        assert forall|x: QNameView| r.denotes(x) <==> x == q@ by {
            if r.denotes(x) {
                let i = choose|i: int| 0 <= i < r.namespaces@.len() && #[trigger] r.namespaces@[i]@ == x.namespace;
                assert(i == 0);
            }
            if x == q@ {
                assert(r.namespaces@[0]@ == x.namespace);
            }
        }
        r
    }

    /// The wildcard "any name": it has no local name.
    pub fn is_any_name(&self) -> (r: bool)
        ensures
            r == (self.local_name is None),
    {
        self.local_name.is_none()
    }

    /// Whether `ns` is one of the candidate namespaces.
    pub fn has_namespace(&self, ns: &Namespace) -> (r: bool)
        ensures
            r == self.in_namespace_set(ns@),
    {
        let mut i: usize = 0;
        while i < self.namespaces.len()
            invariant
                i <= self.namespaces@.len(),
                forall|j: int| 0 <= j < i ==> self.namespaces@[j]@ != ns@,
            decreases self.namespaces@.len() - i,
        {
            if self.namespaces[i].same_as(ns) {
                return true;
            }
            i = i + 1;
        }
        false
    }

    /// Whether this multiname denotes the qualified name `q`.
    pub fn denotes_qname(&self, q: &QName) -> (r: bool)
        ensures
            r == self.denotes(q@),
    {
        match &self.local_name {
            Some(n) => *n == q.local_name && self.has_namespace(&q.namespace),
            None => false,
        }
    }
}


/// The qualified name that a text stands for: it divides at its last `::`,
/// else at its last `.`, into package and local name; a text with neither is
/// a name in the public namespace.
pub open spec fn qualified_name_of(s: Seq<char>) -> QNameView {
    match last_occurrence(s, "::"@) {
        Some(i) => QNameView {
            namespace: s.subrange(0, i),
            local_name: s.subrange(i + "::"@.len(), s.len() as int),
        },
        None => match last_occurrence(s, "."@) {
            Some(i) => QNameView {
                namespace: s.subrange(0, i),
                local_name: s.subrange(i + "."@.len(), s.len() as int),
            },
            None => QNameView { namespace: Seq::empty(), local_name: s },
        },
    }
}

/// The text of the type parameter that a name of the form `Vector.<T>` or
/// `__AS3__.vec::Vector.<T>` applies; `None` for any other text.
pub open spec fn vector_param_text(s: Seq<char>) -> Option<Seq<char>> {
    if (has_prefix(s, "__AS3__.vec::Vector.<"@) || has_prefix(s, "Vector.<"@)) && has_suffix(
        s,
        ">"@,
    ) {
        Some(s.subrange(first_occurrence(s, ".<"@)->Some_0 + 2, s.len() - 1))
    } else {
        None
    }
}

impl QName {
    /// The qualified name that the text `name` stands for.
    pub fn from_qualified_name(name: &str) -> (r: QName)
        ensures
            r@ == qualified_name_of(name@),
    {
        let len = name.unicode_len();
        match rfind(name, "::") {
            Some(i) => {
                proof {
                    reveal_strlit("::");
                }
                QName::new(Namespace { uri: substring(name, 0, i) }, substring(name, i + 2, len))
            },
            None => match rfind(name, ".") {
                Some(i) => {
                    proof {
                        reveal_strlit(".");
                    }
                    QName::new(
                        Namespace { uri: substring(name, 0, i) },
                        substring(name, i + 1, len),
                    )
                },
                None => QName::new(Namespace::public(), String::from_str(name)),
            },
        }
    }
}

/// The type parameter text of a name of the form `Vector.<T>` (with or
/// without the `__AS3__.vec::` package); `None` for any other name. Only the
/// outer brackets are taken off: the text between them is not examined.
pub fn split_vector_name(name: &str) -> (r: Option<String>)
    ensures
        r matches Some(t) ==> vector_param_text(name@) == Some(t@),
        r is None ==> vector_param_text(name@) is None,
{
    let long = starts_with(name, "__AS3__.vec::Vector.<");
    let short = starts_with(name, "Vector.<");
    if (long || short) && ends_with(name, ">") {
        let ghost s = name@;
        proof {
            reveal_strlit("__AS3__.vec::Vector.<");
            reveal_strlit("Vector.<");
            reveal_strlit(".<");
            reveal_strlit(">");
            let j: int = if long { 19 } else { 6 };
            let plen: int = if long { 21 } else { 8 };
            let pre = if long { "__AS3__.vec::Vector.<"@ } else { "Vector.<"@ };
            assert(s.subrange(0, plen) == pre);
            assert(s[j] == s.subrange(0, plen)[j]);
            assert(s[j + 1] == s.subrange(0, plen)[j + 1]);
            assert(s.subrange(j, j + 2) =~= ".<"@);
            lemma_first_occurrence_minimal(s, ".<"@, 0, j);
            assert(s.subrange(s.len() - 1, s.len() as int)[0] == '>');
            assert(s[plen - 1] == '<');
        }
        let start = find(name, ".<").unwrap();
        let len = name.unicode_len();
        proof {
            reveal_strlit(".<");
        }
        Some(substring(name, start + 2, len - 1))
    } else {
        None
    }
}

} // verus!
