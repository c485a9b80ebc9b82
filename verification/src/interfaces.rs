//! The interfaces of a class: every interface that the class, one of its
//! superclasses or one of their interfaces names.

use vstd::prelude::*;
use crate::error::Error;
use crate::multiname::Multiname;
use crate::class::Class;
use crate::runtime::find_definition;
use crate::runtime::Runtime;
use crate::value::ClassId;

verus! {

/// The state of the walk over the definitions that a class reaches.
pub struct Walk {
    /// The definitions that are still to be visited, the next one last.
    pub queue: Seq<ClassId>,
    /// The definitions that were ever put on the queue.
    pub queued: Set<ClassId>,
    /// The interfaces that were found.
    pub recorded: Set<ClassId>,
    /// The interfaces that were found, in the order in which they were.
    pub found: Seq<ClassId>,
}

/// The walk `w` with `d` to be visited, unless it was put on the queue
/// before.
pub open spec fn enqueue(w: Walk, d: ClassId) -> Walk {
    if w.queued.contains(d) {
        w
    } else {
        Walk { queue: w.queue.push(d), queued: w.queued.insert(d), ..w }
    }
}

/// The walk `w` with the interface `d` found and to be visited, unless it
/// was found before.
pub open spec fn record(w: Walk, d: ClassId) -> Walk {
    if w.recorded.contains(d) {
        w
    } else {
        Walk { recorded: w.recorded.insert(d), found: w.found.push(d), ..enqueue(w, d) }
    }
}

/// The walk after the interface names `names`, from the position `i` on,
/// were resolved and recorded. A name that resolves to no definition, or to
/// one that is no interface, is an error.
pub open spec fn visit_interfaces(defs: Seq<Class>, names: Seq<Multiname>, i: int, w: Walk) -> Result<
    Walk,
    Error,
>
    decreases names.len() - i,
{
    if i < 0 || i >= names.len() {
        Ok(w)
    } else {
        match find_definition(defs, &names[i], 0) {
            None => Err(Error::UnresolvedClass { name: names[i].name }),
            Some(d) => if !defs[d as int].is_interface {
                Err(Error::NotAnInterface { name: defs[d as int].name.name })
            } else {
                visit_interfaces(defs, names, i + 1, record(w, d))
            },
        }
    }
}

/// The walk after the superclass of the definition `d`, if it names one, was
/// resolved and put on the queue.
pub open spec fn visit_superclass(defs: Seq<Class>, d: ClassId, w: Walk) -> Result<Walk, Error> {
    match defs[d as int].super_class {
        None => Ok(w),
        Some(name) => match find_definition(defs, &name, 0) {
            None => Err(Error::UnresolvedClass { name: name.name }),
            Some(s) => Ok(enqueue(w, s)),
        },
    }
}

/// The interfaces that the walk finds from the state `w` on, visiting at
/// most `fuel` definitions.
pub open spec fn walk(defs: Seq<Class>, w: Walk, fuel: nat) -> Result<Seq<ClassId>, Error>
    decreases fuel,
{
    if fuel == 0 || w.queue.len() == 0 {
        Ok(w.found)
    } else {
        let d = w.queue.last();
        let rest = Walk { queue: w.queue.drop_last(), ..w };
        match visit_interfaces(defs, defs[d as int].direct_interfaces@, 0, rest) {
            Err(e) => Err(e),
            Ok(w2) => match visit_superclass(defs, d, w2) {
                Err(e) => Err(e),
                Ok(w3) => walk(defs, w3, (fuel - 1) as nat),
            },
        }
    }
}

/// The walk that starts at the definition `class`.
pub open spec fn start(class: ClassId) -> Walk {
    Walk { queue: seq![class], queued: set![class], recorded: Set::empty(), found: Seq::empty() }
}

/// Every interface that the definition `class` implements: those that it
/// names itself, those of its superclasses, and those that these interfaces
/// name in turn; each once, in the order in which the walk finds them. No
/// definition is put on the queue twice, and at most as many definitions are
/// visited as there are definitions.
pub open spec fn implemented_interfaces(defs: Seq<Class>, class: ClassId) -> Result<Seq<ClassId>, Error> {
    walk(defs, start(class), defs.len())
}

/// The exec state of the walk.
struct WalkState {
    queue: Vec<ClassId>,
    queued: Vec<bool>,
    recorded: Vec<bool>,
    found: Vec<ClassId>,
}

impl WalkState {
    spec fn models(&self, w: Walk, n: nat) -> bool {
        &&& self.queue@ == w.queue
        &&& self.found@ == w.found
        &&& self.queued@.len() == n
        &&& self.recorded@.len() == n
        &&& forall|d: ClassId| d < n ==> self.queued@[d as int] == w.queued.contains(d)
        &&& forall|d: ClassId| d < n ==> self.recorded@[d as int] == w.recorded.contains(d)
        &&& forall|i: int| 0 <= i < self.queue@.len() ==> #[trigger] self.queue@[i] < n
        &&& forall|i: int| 0 <= i < self.found@.len() ==> #[trigger] self.found@[i] < n
    }

    fn enqueue(&mut self, d: ClassId, Ghost(w): Ghost<Walk>, Ghost(n): Ghost<nat>)
        requires
            old(self).models(w, n),
            d < n,
        ensures
            final(self).models(enqueue(w, d), n),
    {
        if !self.queued[d] {
            self.queued.set(d, true);
            self.queue.push(d);
        }
    }

    fn record(&mut self, d: ClassId, Ghost(w): Ghost<Walk>, Ghost(n): Ghost<nat>)
        requires
            old(self).models(w, n),
            d < n,
        ensures
            final(self).models(record(w, d), n),
    {
        if !self.recorded[d] {
            self.recorded.set(d, true);
            self.found.push(d);
            self.enqueue(d, Ghost(Walk { recorded: w.recorded.insert(d), found: w.found.push(d), ..w }), Ghost(n));
        }
    }
}

fn flags(n: usize) -> (r: Vec<bool>)
    ensures
        r@.len() == n,
        forall|i: int| 0 <= i < n ==> !r@[i],
{
    let mut r: Vec<bool> = Vec::new();
    while r.len() < n
        invariant
            r@.len() <= n,
            forall|i: int| 0 <= i < r@.len() ==> !r@[i],
        decreases n - r@.len(),
    {
        r.push(false);
    }
    r
}

/// Collects every interface that the definition `class` implements.
pub fn collect_interfaces(rt: &Runtime, class: ClassId) -> (r: Result<Vec<ClassId>, Error>)
    requires
        class < rt.definitions@.len(),
    ensures
        match r {
            Ok(found) => implemented_interfaces(rt.definitions@, class) == Ok::<Seq<ClassId>, Error>(found@)
                && forall|i: int| 0 <= i < found@.len() ==> #[trigger] found@[i] < rt.definitions@.len(),
            Err(e) => implemented_interfaces(rt.definitions@, class) == Err::<Seq<ClassId>, Error>(e),
        },
{
    let n = rt.definitions.len();
    let mut state = WalkState {
        queue: Vec::new(),
        queued: flags(n),
        recorded: flags(n),
        found: Vec::new(),
    };
    state.queue.push(class);
    state.queued.set(class, true);
    let ghost mut w = start(class);
    assert(state.queue@ =~= w.queue);
    let mut fuel: usize = n;
    while fuel > 0 && state.queue.len() > 0
        invariant
            n == rt.definitions@.len(),
            state.models(w, n as nat),
            implemented_interfaces(rt.definitions@, class) == walk(rt.definitions@, w, fuel as nat),
        decreases fuel,
    {
        let d = state.queue.pop().unwrap();
        let ghost rest = Walk { queue: w.queue.drop_last(), ..w };
        assert(d == w.queue.last());
        let names = &rt.definitions[d].direct_interfaces;
        let ghost mut w2 = rest;
        let mut i: usize = 0;
        while i < names.len()
            invariant
                n == rt.definitions@.len(),
                d < n,
                names@ == rt.definitions@[d as int].direct_interfaces@,
                fuel > 0,
                w.queue.len() > 0,
                d == w.queue.last(),
                rest == (Walk { queue: w.queue.drop_last(), ..w }),
                implemented_interfaces(rt.definitions@, class) == walk(rt.definitions@, w, fuel as nat),
                i <= names@.len(),
                state.models(w2, n as nat),
                visit_interfaces(rt.definitions@, names@, 0, rest) == visit_interfaces(
                    rt.definitions@,
                    names@,
                    i as int,
                    w2,
                ),
            decreases names@.len() - i,
        {
            match rt.get_class(&names[i]) {
                None => {
                    return Err(Error::UnresolvedClass { name: names[i].name });
                },
                Some(interface) => {
                    if !rt.definitions[interface].is_interface() {
                        return Err(
                            Error::NotAnInterface { name: rt.definitions[interface].name.name },
                        );
                    }
                    state.record(interface, Ghost(w2), Ghost(n as nat));
                    proof {
                        w2 = record(w2, interface);
                    }
                },
            }
            i += 1;
        }
        match &rt.definitions[d].super_class {
            None => {
                proof {
                    w = w2;
                }
            },
            Some(name) => {
                match rt.get_class(name) {
                    None => {
                        return Err(Error::UnresolvedClass { name: name.name });
                    },
                    Some(s) => {
                        state.enqueue(s, Ghost(w2), Ghost(n as nat));
                        proof {
                            w = enqueue(w2, s);
                        }
                    },
                }
            },
        }
        fuel -= 1;
    }
    Ok(state.found)
}

/// Whether the walk `w` has found interfaces only, each once, and has
/// recorded exactly those that it has found.
pub open spec fn found_once(defs: Seq<Class>, w: Walk) -> bool {
    &&& w.found.no_duplicates()
    &&& forall|d: ClassId| w.recorded.contains(d) <==> w.found.contains(d)
    &&& forall|i: int|
        0 <= i < w.found.len() ==> (#[trigger] w.found[i]) < defs.len() && defs[w.found[i] as int].is_interface
}

proof fn lemma_find_definition(defs: Seq<Class>, name: &Multiname, from: int)
    requires
        0 <= from,
    ensures
        find_definition(defs, name, from) matches Some(d) ==> d < defs.len(),
    decreases defs.len() - from,
{
    if from < defs.len() && !name.spec_contains_name(defs[from].name) {
        lemma_find_definition(defs, name, from + 1);
    }
}

proof fn lemma_record(defs: Seq<Class>, w: Walk, d: ClassId)
    requires
        found_once(defs, w),
        d < defs.len(),
        defs[d as int].is_interface,
    ensures
        found_once(defs, record(w, d)),
{
    let after = record(w, d);
    if !w.recorded.contains(d) {
        assert(after.found == w.found.push(d));
        assert forall|i: int, j: int|
            0 <= i < after.found.len() && 0 <= j < after.found.len() && i != j implies after.found[i]
            != after.found[j] by {
            if i < w.found.len() {
                assert(w.found.contains(w.found[i]));
            }
            if j < w.found.len() {
                assert(w.found.contains(w.found[j]));
            }
        }
        assert forall|x: ClassId| after.recorded.contains(x) <==> after.found.contains(x) by {
            if after.found.contains(x) {
                let i = choose|i: int| 0 <= i < after.found.len() && after.found[i] == x;
                if i < w.found.len() {
                    assert(w.found.contains(w.found[i]));
                }
            }
            if w.found.contains(x) {
                let i = choose|i: int| 0 <= i < w.found.len() && w.found[i] == x;
                assert(after.found[i] == x);
            }
            if x == d {
                assert(after.found[w.found.len() as int] == d);
            }
        }
    }
}

proof fn lemma_visit_interfaces(defs: Seq<Class>, names: Seq<Multiname>, i: int, w: Walk)
    requires
        0 <= i,
        found_once(defs, w),
    ensures
        visit_interfaces(defs, names, i, w) matches Ok(after) ==> found_once(defs, after),
    decreases names.len() - i,
{
    if i < names.len() {
        lemma_find_definition(defs, &names[i], 0);
        match find_definition(defs, &names[i], 0) {
            Some(d) => {
                if defs[d as int].is_interface {
                    lemma_record(defs, w, d);
                    lemma_visit_interfaces(defs, names, i + 1, record(w, d));
                }
            },
            None => {},
        }
    }
}

proof fn lemma_walk(defs: Seq<Class>, w: Walk, fuel: nat)
    requires
        found_once(defs, w),
    ensures
        walk(defs, w, fuel) matches Ok(found) ==> found.no_duplicates() && forall|i: int|
            0 <= i < found.len() ==> (#[trigger] found[i]) < defs.len() && defs[found[i] as int].is_interface,
    decreases fuel,
{
    if fuel > 0 && w.queue.len() > 0 {
        let d = w.queue.last();
        let rest = Walk { queue: w.queue.drop_last(), ..w };
        lemma_visit_interfaces(defs, defs[d as int].direct_interfaces@, 0, rest);
        match visit_interfaces(defs, defs[d as int].direct_interfaces@, 0, rest) {
            Ok(w2) => {
                match visit_superclass(defs, d, w2) {
                    Ok(w3) => {
                        lemma_walk(defs, w3, (fuel - 1) as nat);
                    },
                    Err(_) => {},
                }
            },
            Err(_) => {},
        }
    }
}

/// The interfaces of a class are interfaces, and each is listed once.
pub proof fn lemma_interfaces_distinct(defs: Seq<Class>, class: ClassId)
    ensures
        implemented_interfaces(defs, class) matches Ok(found) ==> found.no_duplicates() && forall|
            i: int,
        |
            0 <= i < found.len() ==> (#[trigger] found[i]) < defs.len() && defs[found[i] as int].is_interface,
{
    lemma_walk(defs, start(class), defs.len());
}

/// The number of the definitions below `k` that were never put on the
/// queue.
pub open spec fn unseen(queued: Set<ClassId>, k: nat) -> nat
    decreases k,
{
    if k == 0 {
        0
    } else {
        unseen(queued, (k - 1) as nat) + if queued.contains((k - 1) as usize) {
            0nat
        } else {
            1nat
        }
    }
}

proof fn lemma_unseen_insert(queued: Set<ClassId>, d: ClassId, k: nat)
    requires
        !queued.contains(d),
        k <= usize::MAX,
    ensures
        unseen(queued.insert(d), k) + (if d < k {
            1nat
        } else {
            0nat
        }) == unseen(queued, k),
    decreases k,
{
    if k > 0 {
        lemma_unseen_insert(queued, d, (k - 1) as nat);
    }
}

proof fn lemma_unseen_bound(queued: Set<ClassId>, k: nat)
    ensures
        unseen(queued, k) <= k,
    decreases k,
{
    if k > 0 {
        lemma_unseen_bound(queued, (k - 1) as nat);
    }
}

/// The number of the definitions that the walk may still visit: those on
/// the queue and those that were never put on it.
pub open spec fn pending(w: Walk, n: nat) -> nat {
    unseen(w.queued, n) + w.queue.len()
}

proof fn lemma_enqueue_pending(w: Walk, d: ClassId, n: nat)
    requires
        d < n,
        n <= usize::MAX,
    ensures
        pending(enqueue(w, d), n) == pending(w, n),
{
    if !w.queued.contains(d) {
        lemma_unseen_insert(w.queued, d, n);
    }
}

proof fn lemma_visit_interfaces_pending(defs: Seq<Class>, names: Seq<Multiname>, i: int, w: Walk)
    requires
        0 <= i,
        defs.len() <= usize::MAX,
    ensures
        visit_interfaces(defs, names, i, w) matches Ok(after) ==> pending(after, defs.len())
            == pending(w, defs.len()),
    decreases names.len() - i,
{
    if i < names.len() {
        lemma_find_definition(defs, &names[i], 0);
        match find_definition(defs, &names[i], 0) {
            Some(d) => {
                if defs[d as int].is_interface {
                    lemma_enqueue_pending(w, d, defs.len());
                    if !w.recorded.contains(d) {
                        assert(pending(record(w, d), defs.len()) == pending(
                            enqueue(w, d),
                            defs.len(),
                        ));
                    }
                    lemma_visit_interfaces_pending(defs, names, i + 1, record(w, d));
                }
            },
            None => {},
        }
    }
}

proof fn lemma_walk_fuel(defs: Seq<Class>, w: Walk, fuel: nat, extra: nat)
    requires
        defs.len() <= usize::MAX,
        pending(w, defs.len()) <= fuel,
    ensures
        walk(defs, w, fuel) == walk(defs, w, fuel + extra),
    decreases fuel,
{
    if w.queue.len() > 0 {
        let d = w.queue.last();
        let rest = Walk { queue: w.queue.drop_last(), ..w };
        assert(pending(rest, defs.len()) + 1 == pending(w, defs.len()));
        lemma_visit_interfaces_pending(defs, defs[d as int].direct_interfaces@, 0, rest);
        match visit_interfaces(defs, defs[d as int].direct_interfaces@, 0, rest) {
            Ok(w2) => {
                match defs[d as int].super_class {
                    Some(name) => {
                        lemma_find_definition(defs, &name, 0);
                        match find_definition(defs, &name, 0) {
                            Some(s) => {
                                lemma_enqueue_pending(w2, s, defs.len());
                            },
                            None => {},
                        }
                    },
                    None => {},
                }
                match visit_superclass(defs, d, w2) {
                    Ok(w3) => {
                        lemma_walk_fuel(defs, w3, (fuel - 1) as nat, extra);
                    },
                    Err(_) => {},
                }
            },
            Err(_) => {},
        }
    }
}

/// The walk visits everything that it reaches: to allow it more visits than
/// there are definitions changes nothing.
pub proof fn lemma_interfaces_complete(defs: Seq<Class>, class: ClassId, extra: nat)
    requires
        class < defs.len(),
        defs.len() <= usize::MAX,
    ensures
        implemented_interfaces(defs, class) == walk(defs, start(class), defs.len() + extra),
{
    let w = start(class);
    assert(w.queued =~= Set::<ClassId>::empty().insert(class));
    lemma_unseen_insert(Set::<ClassId>::empty(), class, defs.len());
    lemma_unseen_bound(Set::<ClassId>::empty(), defs.len());
    lemma_walk_fuel(defs, w, defs.len(), extra);
}

} // verus!
