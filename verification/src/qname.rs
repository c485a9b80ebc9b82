//! Qualified names: a namespace and a local name.

use vstd::prelude::*;
use vstd::string::StringExecFns;
use vstd::string::StrSliceExecFns;
use crate::either::Either;
use crate::error::Error;
use crate::interner::Interner;
use crate::interner::EMPTY_ATOM;
use crate::namespace::Namespace;
use crate::value::Atom;

verus! {

/// Whether `sep` stands in `s` at position `i`.
pub open spec fn is_sep_at(s: Seq<char>, sep: Seq<char>, i: int) -> bool {
    0 <= i && i + sep.len() <= s.len() && s.subrange(i, i + sep.len()) == sep
}

/// The last position below `n` at which `sep` stands in `s`.
pub open spec fn rfind_below(s: Seq<char>, sep: Seq<char>, n: nat) -> Option<int>
    decreases n,
{
    if n == 0 {
        None
    } else if is_sep_at(s, sep, n - 1) {
        Some(n - 1)
    } else {
        rfind_below(s, sep, (n - 1) as nat)
    }
}

/// The separator between a package and a local name.
pub open spec fn colons() -> Seq<char> {
    seq![':', ':']
}

/// The alternative separator, and the one of user-facing messages.
pub open spec fn dot() -> Seq<char> {
    seq!['.']
}

/// The package and local name of a fully qualified name: the parts before
/// and after the last `::`, or else before and after the last `.`; `None`
/// if `s` holds neither.
pub open spec fn split_qualified(s: Seq<char>) -> Option<(Seq<char>, Seq<char>)> {
    match rfind_below(s, colons(), s.len()) {
        Some(i) => Some((s.subrange(0, i), s.subrange(i + 2, s.len() as int))),
        None => match rfind_below(s, dot(), s.len()) {
            Some(i) => Some((s.subrange(0, i), s.subrange(i + 1, s.len() as int))),
            None => None,
        },
    }
}

/// `rfind_below` finds a position at which the separator stands, and none
/// stands after it.
pub proof fn lemma_rfind_below(s: Seq<char>, sep: Seq<char>, n: nat)
    ensures
        match rfind_below(s, sep, n) {
            Some(i) => 0 <= i < n && is_sep_at(s, sep, i) && forall|j: int|
                i < j < n ==> !is_sep_at(s, sep, j),
            None => forall|j: int| 0 <= j < n ==> !is_sep_at(s, sep, j),
        },
    decreases n,
{
    if n > 0 && !is_sep_at(s, sep, n - 1) {
        lemma_rfind_below(s, sep, (n - 1) as nat);
    }
}

fn sep_at(name: &str, len: usize, sep: &Vec<char>, i: usize) -> (r: bool)
    requires
        len == name@.len(),
        i < len,
    ensures
        r == is_sep_at(name@, sep@, i as int),
{
    if sep.len() > len - i {
        return false;
    }
    let mut k: usize = 0;
    while k < sep.len()
        invariant
            len == name@.len(),
            i < len,
            sep@.len() <= len - i,
            k <= sep@.len(),
            forall|j: int| 0 <= j < k ==> name@[i + j] == sep@[j],
        decreases sep@.len() - k,
    {
        if name.get_char(i + k) != sep[k] {
            assert(name@.subrange(i as int, i + sep@.len())[k as int] != sep@[k as int]);
            return false;
        }
        k += 1;
    }
    assert(name@.subrange(i as int, i + sep@.len()) =~= sep@);
    true
}

fn rfind(name: &str, len: usize, sep: &Vec<char>) -> (r: Option<usize>)
    requires
        len == name@.len(),
    ensures
        match r {
            Some(i) => rfind_below(name@, sep@, len as nat) == Some(i as int),
            None => rfind_below(name@, sep@, len as nat) is None,
        },
{
    let mut n: usize = len;
    while n > 0
        invariant
            len == name@.len(),
            n <= len,
            rfind_below(name@, sep@, len as nat) == rfind_below(name@, sep@, n as nat),
        decreases n,
    {
        if sep_at(name, len, sep, n - 1) {
            return Some(n - 1);
        }
        n -= 1;
    }
    None
}

/// A multiname of a constant pool, with its namespace and name resolved.
#[derive(Clone, Copy, Debug, PartialEq, Eq, Structural)]
pub enum AbcMultiname {
    /// A qualified name.
    QName { namespace: Namespace, name: Atom },
    /// A multiname of any other kind.
    Other,
}

/// A namespace and a local name. Two qualified names are the same name
/// exactly when both parts are equal.
#[derive(Clone, Copy, Debug, PartialEq, Eq, Structural)]
pub struct QName {
    pub ns: Namespace,
    pub name: Atom,
}

impl QName {
    /// The name `name` in the namespace `ns`.
    pub fn new(ns: Namespace, name: Atom) -> (r: QName)
        ensures
            r == (QName { ns, name }),
    {
        QName { ns, name }
    }

    /// The name that the fully qualified string `name` stands for.
    ///
    /// `PACKAGE::LOCAL` and `PACKAGE.LOCAL` give the local name in the
    /// package's namespace, split at the last separator; a string without a
    /// separator is a local name in the public namespace.
    pub fn from_qualified_name(name: &str, interner: &mut Interner) -> (r: QName)
        requires
            old(interner).wf(),
        ensures
            final(interner).wf(),
            old(interner).extended_by(final(interner)),
            final(interner).contains(r.name),
            final(interner).contains(r.ns.spec_as_uri()),
            match split_qualified(name@) {
                Some((package, local)) => {
                    &&& r.ns is Package
                    &&& final(interner).text(r.ns.spec_as_uri()) == package
                    &&& final(interner).text(r.name) == local
                },
                None => {
                    &&& r.ns == Namespace::spec_public()
                    &&& final(interner).text(r.name) == name@
                },
            },
    {
        let len = name.unicode_len();
        let colons: Vec<char> = vec![':', ':'];
        let dot: Vec<char> = vec!['.'];
        assert(colons@ =~= self::colons());
        assert(dot@ =~= self::dot());
        let (at, width): (Option<usize>, usize) = match rfind(name, len, &colons) {
            Some(i) => (Some(i), 2),
            None => (rfind(name, len, &dot), 1),
        };
        match at {
            Some(i) => {
                proof {
                    lemma_rfind_below(name@, self::colons(), len as nat);
                    lemma_rfind_below(name@, self::dot(), len as nat);
                }
                let package = interner.intern(name.substring_char(0, i));
                let local = interner.intern(name.substring_char(i + width, len));
                QName { ns: Namespace::package(package), name: local }
            },
            None => {
                let local = interner.intern(name);
                QName { ns: Namespace::public(), name: local }
            },
        }
    }

    /// The text `uri::name`, or the local name alone where the namespace has
    /// the empty URI. The local name's own atom is handed back where no new
    /// string is needed.
    pub fn to_qualified_name_no_mc(self, interner: &Interner) -> (r: Either<Atom, String>)
        requires
            interner.wf(),
            interner.contains(self.name),
            interner.contains(self.ns.spec_as_uri()),
        ensures
            match r {
                Either::Left(a) => self.ns.spec_as_uri() == EMPTY_ATOM && a == self.name,
                Either::Right(s) => self.ns.spec_as_uri() != EMPTY_ATOM && s@ == interner.text(
                    self.ns.spec_as_uri(),
                ) + colons() + interner.text(self.name),
            },
    {
        let uri = self.ns.as_uri();
        if uri == EMPTY_ATOM {
            Either::Left(self.name)
        } else {
            let mut buf = String::from_str(interner.get(uri));
            proof {
                reveal_strlit("::");
            }
            buf.append("::");
            buf.append(interner.get(self.name));
            assert("::"@ =~= colons());
            Either::Right(buf)
        }
    }

    /// The text of `to_qualified_name_no_mc`, as a string in either case.
    pub fn to_qualified_name(self, interner: &Interner) -> (r: String)
        requires
            interner.wf(),
            interner.contains(self.name),
            interner.contains(self.ns.spec_as_uri()),
        ensures
            r@ == self.qualified_text(interner, colons()),
    {
        match self.to_qualified_name_no_mc(interner) {
            Either::Left(a) => String::from_str(interner.get(a)),
            Either::Right(s) => s,
        }
    }

    /// The local name, preceded by the namespace's URI and `sep` where the
    /// URI is not empty.
    pub open spec fn qualified_text(self, interner: &Interner, sep: Seq<char>) -> Seq<char> {
        if self.ns.spec_as_uri() == EMPTY_ATOM {
            interner.text(self.name)
        } else {
            interner.text(self.ns.spec_as_uri()) + sep + interner.text(self.name)
        }
    }

    /// The text `uri.name`, as user-facing messages show a name; the local
    /// name alone where the namespace has the empty URI.
    pub fn to_qualified_name_err_message(self, interner: &Interner) -> (r: String)
        requires
            interner.wf(),
            interner.contains(self.name),
            interner.contains(self.ns.spec_as_uri()),
        ensures
            r@ == self.qualified_text(interner, dot()),
    {
        let mut buf = String::new();
        let uri = self.ns.as_uri();
        if uri != EMPTY_ATOM {
            buf.append(interner.get(uri));
            proof {
                reveal_strlit(".");
            }
            buf.append(".");
            assert("."@ =~= dot());
        }
        buf.append(interner.get(self.name));
        assert(Seq::<char>::empty() + interner.text(self.name) =~= interner.text(self.name));
        buf
    }

    /// The local name.
    pub fn local_name(&self) -> (r: Atom)
        ensures
            r == self.name,
    {
        self.name
    }

    /// The namespace.
    pub fn namespace(self) -> (r: Namespace)
        ensures
            r == self.ns,
    {
        self.ns
    }

    /// The name with its namespace's URI: `uri::name`, the local name alone
    /// for the empty URI, and `*::name` for the namespace that matches all.
    pub fn as_uri(&self, interner: &Interner) -> (r: String)
        requires
            interner.wf(),
            interner.contains(self.name),
            interner.contains(self.ns.spec_as_uri()),
        ensures
            r@ == (if self.ns == Namespace::Any {
                seq!['*'] + colons() + interner.text(self.name)
            } else {
                self.qualified_text(interner, colons())
            }),
    {
        let mut buf = match self.ns.as_uri_opt() {
            Some(uri) => {
                if uri == EMPTY_ATOM {
                    return String::from_str(interner.get(self.name));
                }
                String::from_str(interner.get(uri))
            },
            None => {
                proof {
                    reveal_strlit("*");
                }
                assert("*"@ =~= seq!['*']);
                String::from_str("*")
            },
        };
        proof {
            reveal_strlit("::");
        }
        assert("::"@ =~= colons());
        buf.append("::");
        buf.append(interner.get(self.name));
        buf
    }
    /// The text `uri::name`, or the local name alone where the namespace has
    /// the empty URI; an atom that names no string stands for the empty
    /// string.
    pub open spec fn display_text(self, interner: &Interner) -> Seq<char> {
        if interner.text_of(self.ns.spec_as_uri()).len() == 0 {
            interner.text_of(self.name)
        } else {
            interner.text_of(self.ns.spec_as_uri()) + colons() + interner.text_of(self.name)
        }
    }

    /// The name as stack traces show it: `display_text`.
    pub fn to_display_string(self, interner: &Interner) -> (r: String)
        ensures
            r@ == self.display_text(interner),
    {
        let uri = interner.resolve(self.ns.as_uri());
        if uri.unicode_len() == 0 {
            String::from_str(interner.resolve(self.name))
        } else {
            let mut buf = String::from_str(uri);
            proof {
                reveal_strlit("::");
            }
            assert("::"@ =~= colons());
            buf.append("::");
            buf.append(interner.resolve(self.name));
            buf
        }
    }
    /// The qualified name at the index `multiname_index` of the multinames
    /// of a constant pool, which count from one.
    ///
    /// Fails for the index zero, for an index beyond the pool, and for a
    /// multiname that is no qualified name.
    pub fn from_abc_multiname(multinames: &Vec<AbcMultiname>, multiname_index: u32) -> (r: Result<
        QName,
        Error,
    >)
        ensures
            r == (if multiname_index == 0 {
                Err::<QName, Error>(Error::TraitNameIndexZero)
            } else if multiname_index > multinames@.len() {
                Err::<QName, Error>(Error::UnknownMultiname { index: multiname_index })
            } else {
                match multinames@[multiname_index - 1] {
                    AbcMultiname::QName { namespace, name } => Ok::<QName, Error>(
                        QName { ns: namespace, name },
                    ),
                    AbcMultiname::Other => Err::<QName, Error>(Error::NotAQName),
                }
            }),
    {
        if multiname_index == 0 {
            return Err(Error::TraitNameIndexZero);
        }
        let actual_index = (multiname_index - 1) as usize;
        if actual_index >= multinames.len() {
            return Err(Error::UnknownMultiname { index: multiname_index });
        }
        match multinames[actual_index] {
            AbcMultiname::QName { namespace, name } => Ok(QName { ns: namespace, name }),
            AbcMultiname::Other => Err(Error::NotAQName),
        }
    }
    /// The text `uri.name`, or the local name alone where the namespace has
    /// the empty URI; an atom that names no string stands for the empty
    /// string.
    pub open spec fn error_text(self, interner: &Interner) -> Seq<char> {
        if interner.text_of(self.ns.spec_as_uri()).len() == 0 {
            interner.text_of(self.name)
        } else {
            interner.text_of(self.ns.spec_as_uri()) + dot() + interner.text_of(self.name)
        }
    }

    /// The name as error messages show it: `error_text`.
    pub fn to_error_string(self, interner: &Interner) -> (r: String)
        ensures
            r@ == self.error_text(interner),
    {
        let uri = interner.resolve(self.ns.as_uri());
        if uri.unicode_len() == 0 {
            String::from_str(interner.resolve(self.name))
        } else {
            let mut buf = String::from_str(uri);
            proof {
                reveal_strlit(".");
            }
            assert("."@ =~= dot());
            buf.append(".");
            buf.append(interner.resolve(self.name));
            buf
        }
    }
}

} // verus!
