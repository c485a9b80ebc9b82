//! String interning: every distinct string gets one atom.

use vstd::prelude::*;
use vstd::string::StringExecFns;
use crate::value::Atom;

verus! {

/// The atom of the empty string in every well-formed interner.
pub const EMPTY_ATOM: Atom = 0;

/// A table of distinct strings, addressed by atom.
pub struct Interner {
    strings: Vec<String>,
}

impl Interner {
    /// The interned strings, by atom.
    pub closed spec fn table(&self) -> Seq<Seq<char>> {
        Seq::new(self.strings@.len(), |i: int| self.strings@[i]@)
    }

    /// The empty string is atom zero and no string occurs twice.
    pub open spec fn wf(&self) -> bool {
        &&& self.table().len() >= 1
        &&& self.table()[0] == Seq::<char>::empty()
        &&& forall|i: int, j: int|
            0 <= i < self.table().len() && 0 <= j < self.table().len() && i != j
                ==> self.table()[i] != self.table()[j]
    }

    /// Whether `atom` names a string of this table.
    pub open spec fn contains(&self, atom: Atom) -> bool {
        (atom as int) < self.table().len()
    }

    /// The string that `atom` names.
    pub open spec fn text(&self, atom: Atom) -> Seq<char> {
        self.table()[atom as int]
    }

    /// Whether `other` holds every string of `self` under the same atom.
    pub open spec fn extended_by(&self, other: &Interner) -> bool {
        &&& self.table().len() <= other.table().len()
        &&& forall|i: int| 0 <= i < self.table().len() ==> other.table()[i] == self.table()[i]
    }

    /// A table that holds the empty string only.
    pub fn new() -> (r: Interner)
        ensures
            r.wf(),
            r.table() == seq![Seq::<char>::empty()],
    {
        let mut strings: Vec<String> = Vec::new();
        strings.push(String::new());
        let r = Interner { strings };
        assert(r.table() =~= seq![Seq::<char>::empty()]);
        r
    }

    /// The number of interned strings.
    pub fn len(&self) -> (n: usize)
        ensures
            n == self.table().len(),
    {
        self.strings.len()
    }

    /// The atom of `s`, if `s` was interned.
    pub fn lookup(&self, s: &str) -> (r: Option<Atom>)
        ensures
            match r {
                Some(a) => self.contains(a) && self.text(a) == s@,
                None => forall|a: Atom| self.contains(a) ==> self.text(a) != s@,
            },
    {
        let owned = String::from_str(s);
        let n = self.strings.len();
        let mut i: usize = 0;
        while i < n
            invariant
                n == self.strings@.len(),
                owned@ == s@,
                i <= n,
                forall|j: int| 0 <= j < i ==> self.table()[j] != s@,
            decreases n - i,
        {
            if self.strings[i] == owned {
                return Some(i);
            }
            i += 1;
        }
        None
    }

    /// Interns `s`: returns its atom, adding `s` to the table if it is new.
    pub fn intern(&mut self, s: &str) -> (a: Atom)
        requires
            old(self).wf(),
        ensures
            final(self).wf(),
            old(self).extended_by(final(self)),
            final(self).contains(a),
            final(self).text(a) == s@,
            old(self).table().contains(s@) ==> final(self).table() == old(self).table(),
            !old(self).table().contains(s@) ==> final(self).table() == old(self).table().push(s@),
    {
        match self.lookup(s) {
            Some(a) => {
                assert(old(self).table()[a as int] == s@);
                a
            },
            None => {
                let a = self.strings.len();
                assert forall|i: int| 0 <= i < old(self).table().len() implies old(self).table()[i] != s@ by {
                    assert(old(self).contains(i as Atom));
                }
                self.strings.push(String::from_str(s));
                assert(self.table() =~= old(self).table().push(s@));
                a
            },
        }
    }

    /// The string that `atom` names.
    pub fn get(&self, atom: Atom) -> (s: &str)
        requires
            self.contains(atom),
        ensures
            s@ == self.text(atom),
    {
        self.strings[atom].as_str()
    }
    /// The string that `atom` names; the empty string for an atom that names
    /// none.
    pub open spec fn text_of(&self, atom: Atom) -> Seq<char> {
        if self.contains(atom) {
            self.text(atom)
        } else {
            Seq::<char>::empty()
        }
    }

    /// The string that `atom` names; the empty string for an atom that names
    /// none.
    pub fn resolve(&self, atom: Atom) -> (s: &str)
        ensures
            s@ == self.text_of(atom),
    {
        if atom < self.strings.len() {
            self.strings[atom].as_str()
        } else {
            proof {
                reveal_strlit("");
            }
            assert(""@ =~= Seq::<char>::empty());
            ""
        }
    }
}

} // verus!
