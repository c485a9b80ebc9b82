//! Namespaces, which partition identically spelled names.

use vstd::prelude::*;
use crate::interner::EMPTY_ATOM;
use crate::value::Atom;

verus! {

/// A namespace. Each kind but `Any` carries the atom of its URI.
///
/// The public namespace is the package namespace with the empty URI.
#[derive(Clone, Copy, Debug, PartialEq, Eq, Structural)]
pub enum Namespace {
    Any,
    Namespace(Atom),
    Package(Atom),
    PackageInternal(Atom),
    Protected(Atom),
    Explicit(Atom),
    StaticProtected(Atom),
    Private(Atom),
}

impl Namespace {
    /// The public namespace.
    pub open spec fn spec_public() -> Namespace {
        Namespace::Package(EMPTY_ATOM)
    }

    pub open spec fn spec_is_public(&self) -> bool {
        *self == Namespace::Package(EMPTY_ATOM)
    }

    pub open spec fn spec_as_uri(&self) -> Atom {
        match *self {
            Namespace::Any => EMPTY_ATOM,
            Namespace::Namespace(a) => a,
            Namespace::Package(a) => a,
            Namespace::PackageInternal(a) => a,
            Namespace::Protected(a) => a,
            Namespace::Explicit(a) => a,
            Namespace::StaticProtected(a) => a,
            Namespace::Private(a) => a,
        }
    }

    /// The public namespace.
    #[verifier::when_used_as_spec(spec_public)]
    pub fn public() -> (r: Namespace)
        ensures
            r == Namespace::spec_public(),
    {
        Namespace::Package(EMPTY_ATOM)
    }

    /// The namespace of the package whose name has the atom `uri`.
    pub fn package(uri: Atom) -> (r: Namespace)
        ensures
            r == Namespace::Package(uri),
    {
        Namespace::Package(uri)
    }

    /// The private namespace with the URI `uri`.
    pub fn private(uri: Atom) -> (r: Namespace)
        ensures
            r == Namespace::Private(uri),
    {
        Namespace::Private(uri)
    }

    /// Whether this is the public namespace.
    #[verifier::when_used_as_spec(spec_is_public)]
    pub fn is_public(&self) -> (r: bool)
        ensures
            r == self.spec_is_public(),
    {
        match *self {
            Namespace::Package(a) => a == EMPTY_ATOM,
            _ => false,
        }
    }

    /// Whether this namespace matches every namespace.
    pub fn is_any(&self) -> (r: bool)
        ensures
            r == (*self == Namespace::Any),
    {
        match *self {
            Namespace::Any => true,
            _ => false,
        }
    }

    /// Whether this is a plain namespace, as declared by a `namespace`
    /// definition.
    pub fn is_namespace(&self) -> (r: bool)
        ensures
            r == (*self is Namespace),
    {
        match *self {
            Namespace::Namespace(_) => true,
            _ => false,
        }
    }

    /// The atom of this namespace's URI; the empty string for `Any`.
    #[verifier::when_used_as_spec(spec_as_uri)]
    pub fn as_uri(&self) -> (r: Atom)
        ensures
            r == self.spec_as_uri(),
    {
        match *self {
            Namespace::Any => EMPTY_ATOM,
            Namespace::Namespace(a) => a,
            Namespace::Package(a) => a,
            Namespace::PackageInternal(a) => a,
            Namespace::Protected(a) => a,
            Namespace::Explicit(a) => a,
            Namespace::StaticProtected(a) => a,
            Namespace::Private(a) => a,
        }
    }

    /// The atom of this namespace's URI, or `None` for `Any`.
    pub fn as_uri_opt(&self) -> (r: Option<Atom>)
        ensures
            r == (if *self == Namespace::Any { None } else { Some(self.spec_as_uri()) }),
    {
        match *self {
            Namespace::Any => None,
            _ => Some(self.as_uri()),
        }
    }
}

} // verus!
