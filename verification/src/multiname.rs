//! Names as they stand in code before binding: a local name and the set of
//! namespaces in which it may be found.

use vstd::prelude::*;
use crate::namespace::Namespace;
use crate::qname::QName;
use crate::value::Atom;

verus! {

/// A local name, if there is one, and an ordered set of candidate
/// namespaces.
#[derive(Debug)]
pub struct Multiname {
    pub ns: Vec<Namespace>,
    pub name: Option<Atom>,
}

impl Multiname {
    /// Whether the public namespace is among the candidates.
    pub open spec fn spec_contains_public_namespace(&self) -> bool {
        exists|i: int| 0 <= i < self.ns@.len() && self.ns@[i] == Namespace::spec_public()
    }

    /// Whether `q` is one of the names that this multiname may stand for.
    pub open spec fn spec_contains_name(&self, q: QName) -> bool {
        self.name == Some(q.name) && self.ns@.contains(q.ns)
    }

    /// The multiname that stands for one qualified name.
    pub fn new(ns: Namespace, name: Atom) -> (r: Multiname)
        ensures
            r.ns@ == seq![ns],
            r.name == Some(name),
    {
        let mut set: Vec<Namespace> = Vec::new();
        set.push(ns);
        assert(set@ =~= seq![ns]);
        Multiname { ns: set, name: Some(name) }
    }

    /// The multiname with the candidate namespaces `ns`, in that order.
    pub fn with_namespaces(ns: Vec<Namespace>, name: Option<Atom>) -> (r: Multiname)
        ensures
            r.ns@ == ns@,
            r.name == name,
    {
        Multiname { ns, name }
    }

    /// Whether the public namespace is among the candidates.
    #[verifier::when_used_as_spec(spec_contains_public_namespace)]
    pub fn contains_public_namespace(&self) -> (r: bool)
        ensures
            r == self.spec_contains_public_namespace(),
    {
        let mut i: usize = 0;
        while i < self.ns.len()
            invariant
                i <= self.ns@.len(),
                forall|j: int| 0 <= j < i ==> self.ns@[j] != Namespace::spec_public(),
            decreases self.ns@.len() - i,
        {
            if self.ns[i].is_public() {
                return true;
            }
            i += 1;
        }
        false
    }

    /// The local name, if there is one.
    pub fn local_name(&self) -> (r: Option<Atom>)
        ensures
            r == self.name,
    {
        self.name
    }

    /// Whether `q` is one of the names that this multiname may stand for.
    #[verifier::when_used_as_spec(spec_contains_name)]
    pub fn contains_name(&self, q: QName) -> (r: bool)
        ensures
            r == self.spec_contains_name(q),
    {
        match self.name {
            None => false,
            Some(name) => {
                if name != q.name {
                    return false;
                }
                let mut i: usize = 0;
                while i < self.ns.len()
                    invariant
                        self.name == Some(q.name),
                        i <= self.ns@.len(),
                        forall|j: int| 0 <= j < i ==> self.ns@[j] != q.ns,
                    decreases self.ns@.len() - i,
                {
                    if self.ns[i] == q.ns {
                        assert(self.ns@[i as int] == q.ns);
                        return true;
                    }
                    i += 1;
                }
                false
            },
        }
    }
    /// Whether `other` has the same local name and candidate namespaces.
    pub open spec fn same_as(&self, other: &Multiname) -> bool {
        self.ns@ == other.ns@ && self.name == other.name
    }

    /// A copy of this multiname.
    pub fn duplicate(&self) -> (r: Multiname)
        ensures
            r.same_as(self),
    {
        Multiname { ns: crate::vtable::copy_vec(&self.ns), name: self.name }
    }
}

} // verus!
