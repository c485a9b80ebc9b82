//! Property tables: for each class, what every name of its instances
//! resolves to.

use vstd::prelude::*;
use crate::class_object::ClassObject;
use crate::method::Method;
use crate::multiname::Multiname;
use crate::namespace::Namespace;
use crate::property::Property;
use crate::qname::QName;
use crate::scope::ScopeChain;
use crate::traits::SlotType;
use crate::traits::Trait;
use crate::traits::TraitKind;
use crate::value::Atom;
use crate::value::Value;

verus! {

/// A method together with the class that declared it and the scope it
/// captured.
#[derive(Clone, Copy, Debug, PartialEq, Eq, Structural)]
pub struct ClassBoundMethod {
    pub class: ClassObject,
    pub scope: ScopeChain,
    pub method: Method,
}

/// One row of a property table.
#[derive(Clone, Copy, Debug, PartialEq, Eq, Structural)]
pub struct TraitEntry {
    pub name: QName,
    pub property: Property,
}

/// What a property table holds: the resolved names, the dispatch table and
/// the initial values of the slots.
pub struct VTableView {
    pub traits: Map<QName, Property>,
    pub methods: Seq<ClassBoundMethod>,
    pub slots: Seq<Value>,
}

/// The table of a class without a superclass and without traits.
pub open spec fn empty_view() -> VTableView {
    VTableView { traits: Map::empty(), methods: Seq::empty(), slots: Seq::empty() }
}

/// The initial value of a slot: its initializer, or else the zero value of
/// its type.
pub open spec fn initial_value(slot_type: SlotType, default_value: Option<Value>) -> Value {
    match default_value {
        Some(v) => v,
        None => slot_type.spec_zero_value(),
    }
}

/// The setter that an accessor declared earlier under `name` has, if any.
pub open spec fn inherited_setter(traits: Map<QName, Property>, name: QName) -> Option<u32> {
    if traits.contains_key(name) {
        match traits[name] {
            Property::Virtual { get, set } => set,
            _ => None,
        }
    } else {
        None
    }
}

/// The getter that an accessor declared earlier under `name` has, if any.
pub open spec fn inherited_getter(traits: Map<QName, Property>, name: QName) -> Option<u32> {
    if traits.contains_key(name) {
        match traits[name] {
            Property::Virtual { get, set } => get,
            _ => None,
        }
    } else {
        None
    }
}

/// The table `v` after the class `class` declared `t` in the scope `scope`.
///
/// A slot takes the next free slot id, a method or accessor the next free
/// dispatch id. A getter or setter joins an accessor that already stands
/// under its name; every other declaration replaces what stood there.
pub open spec fn declare(v: VTableView, class: ClassObject, scope: ScopeChain, t: Trait)
    -> VTableView {
    let slot_id = v.slots.len() as u32;
    let disp_id = v.methods.len() as u32;
    match t.kind {
        TraitKind::Slot { slot_type, default_value } => VTableView {
            traits: v.traits.insert(t.name, Property::Slot { slot_id }),
            methods: v.methods,
            slots: v.slots.push(initial_value(slot_type, default_value)),
        },
        TraitKind::Const { slot_type, default_value } => VTableView {
            traits: v.traits.insert(t.name, Property::ConstSlot { slot_id }),
            methods: v.methods,
            slots: v.slots.push(initial_value(slot_type, default_value)),
        },
        TraitKind::Method { method } => VTableView {
            traits: v.traits.insert(t.name, Property::Method { disp_id }),
            methods: v.methods.push(ClassBoundMethod { class, scope, method }),
            slots: v.slots,
        },
        TraitKind::Getter { method } => VTableView {
            traits: v.traits.insert(
                t.name,
                Property::Virtual { get: Some(disp_id), set: inherited_setter(v.traits, t.name) },
            ),
            methods: v.methods.push(ClassBoundMethod { class, scope, method }),
            slots: v.slots,
        },
        TraitKind::Setter { method } => VTableView {
            traits: v.traits.insert(
                t.name,
                Property::Virtual { get: inherited_getter(v.traits, t.name), set: Some(disp_id) },
            ),
            methods: v.methods.push(ClassBoundMethod { class, scope, method }),
            slots: v.slots,
        },
    }
}

/// The table `v` after `class` declared each of `traits`, in order.
pub open spec fn declare_all(
    v: VTableView,
    class: ClassObject,
    scope: ScopeChain,
    traits: Seq<Trait>,
) -> VTableView
    decreases traits.len(),
{
    if traits.len() == 0 {
        v
    } else {
        declare(declare_all(v, class, scope, traits.drop_last()), class, scope, traits.last())
    }
}

/// Every id of a resolved name addresses an entry of the table.
pub open spec fn ids_in_range(v: VTableView) -> bool {
    forall|q: QName| #[trigger]
        v.traits.contains_key(q) ==> match v.traits[q] {
            Property::Slot { slot_id } => slot_id < v.slots.len(),
            Property::ConstSlot { slot_id } => slot_id < v.slots.len(),
            Property::Method { disp_id } => disp_id < v.methods.len(),
            Property::Virtual { get, set } => {
                &&& get matches Some(g) ==> g < v.methods.len()
                &&& set matches Some(s) ==> s < v.methods.len()
            },
        }
}

/// What `name` resolves to: the entry of the first candidate namespace,
/// from position `i` on, under which the local name stands in the table.
pub open spec fn resolve_from(traits: Map<QName, Property>, ns: Seq<Namespace>, name: Atom, i: int)
    -> Option<Property>
    decreases ns.len() - i,
{
    if i < 0 || i >= ns.len() {
        None
    } else if traits.contains_key(QName { ns: ns[i], name }) {
        Some(traits[QName { ns: ns[i], name }])
    } else {
        resolve_from(traits, ns, name, i + 1)
    }
}

/// What the multiname resolves to in `traits`, if anything.
pub open spec fn resolve(traits: Map<QName, Property>, ns: Seq<Namespace>, name: Option<Atom>)
    -> Option<Property> {
    match name {
        Some(n) => resolve_from(traits, ns, n, 0),
        None => None,
    }
}

spec fn names_unique(entries: Seq<TraitEntry>) -> bool {
    forall|i: int, j: int|
        0 <= i < entries.len() && 0 <= j < entries.len() && i != j ==> entries[i].name
            != entries[j].name
}

spec fn has_name(entries: Seq<TraitEntry>, q: QName) -> bool {
    exists|i: int| 0 <= i < entries.len() && #[trigger] entries[i].name == q
}

spec fn index_of(entries: Seq<TraitEntry>, q: QName) -> int {
    choose|i: int| 0 <= i < entries.len() && #[trigger] entries[i].name == q
}

spec fn entries_map(entries: Seq<TraitEntry>) -> Map<QName, Property> {
    Map::new(|q: QName| has_name(entries, q), |q: QName| entries[index_of(entries, q)].property)
}

proof fn lemma_entry(entries: Seq<TraitEntry>, i: int)
    requires
        names_unique(entries),
        0 <= i < entries.len(),
    ensures
        entries_map(entries).contains_key(entries[i].name),
        entries_map(entries)[entries[i].name] == entries[i].property,
{
    let q = entries[i].name;
    assert(has_name(entries, q));
    assert(index_of(entries, q) == i);
}

proof fn lemma_push(entries: Seq<TraitEntry>, e: TraitEntry)
    requires
        names_unique(entries),
        !has_name(entries, e.name),
    ensures
        names_unique(entries.push(e)),
        entries_map(entries.push(e)) == entries_map(entries).insert(e.name, e.property),
{
    let after = entries.push(e);
    assert forall|i: int, j: int|
        0 <= i < after.len() && 0 <= j < after.len() && i != j implies after[i].name
        != after[j].name by {
        if i < entries.len() {
            assert(entries[i].name == after[i].name);
        }
        if j < entries.len() {
            assert(entries[j].name == after[j].name);
        }
    }
    assert forall|q: QName| has_name(after, q) <==> (q == e.name || has_name(entries, q)) by {
        if has_name(after, q) {
            let i = index_of(after, q);
            if i < entries.len() {
                assert(entries[i].name == q);
            }
        }
        if q == e.name {
            assert(after[entries.len() as int].name == q);
        }
        if has_name(entries, q) {
            let i = index_of(entries, q);
            assert(after[i].name == q);
        }
    }
    assert forall|q: QName| has_name(after, q) implies #[trigger] entries_map(after)[q]
        == entries_map(entries).insert(e.name, e.property)[q] by {
        let i = index_of(after, q);
        if q == e.name {
            assert(after[entries.len() as int].name == q);
            assert(i == entries.len());
        } else {
            let k = index_of(entries, q);
            assert(after[k].name == q);
            assert(i == k);
        }
    }
    assert(entries_map(after) =~= entries_map(entries).insert(e.name, e.property));
}

proof fn lemma_update(entries: Seq<TraitEntry>, k: int, e: TraitEntry)
    requires
        names_unique(entries),
        0 <= k < entries.len(),
        entries[k].name == e.name,
    ensures
        names_unique(entries.update(k, e)),
        entries_map(entries.update(k, e)) == entries_map(entries).insert(e.name, e.property),
{
    let after = entries.update(k, e);
    assert forall|i: int, j: int|
        0 <= i < after.len() && 0 <= j < after.len() && i != j implies after[i].name
        != after[j].name by {
        assert(entries[i].name == after[i].name);
        assert(entries[j].name == after[j].name);
    }
    assert forall|q: QName| has_name(after, q) <==> (q == e.name || has_name(entries, q)) by {
        if has_name(after, q) {
            let i = index_of(after, q);
            assert(entries[i].name == q);
        }
        if q == e.name {
            assert(after[k].name == q);
        }
        if has_name(entries, q) {
            let i = index_of(entries, q);
            assert(after[i].name == q);
        }
    }
    assert forall|q: QName| has_name(after, q) implies #[trigger] entries_map(after)[q]
        == entries_map(entries).insert(e.name, e.property)[q] by {
        let i = index_of(after, q);
        if q == e.name {
            assert(after[k].name == q);
            assert(i == k);
        } else {
            let m = index_of(entries, q);
            assert(entries[i].name == q);
            assert(i == m);
        }
    }
    assert(entries_map(after) =~= entries_map(entries).insert(e.name, e.property));
}

/// Whether one of `traits` declares the name `q`.
pub open spec fn declares(traits: Seq<Trait>, q: QName) -> bool {
    exists|i: int| 0 <= i < traits.len() && #[trigger] traits[i].name == q
}

/// The slot id of a data slot.
pub open spec fn slot_id_of(p: Property) -> Option<u32> {
    match p {
        Property::Slot { slot_id } => Some(slot_id),
        Property::ConstSlot { slot_id } => Some(slot_id),
        _ => None,
    }
}

/// The table that a class starts from: its superclass's, or the empty one.
pub open spec fn base_of(superclass: Option<&VTable>) -> VTableView {
    match superclass {
        Some(v) => v@,
        None => empty_view(),
    }
}

/// One declaration keeps every id in range, appends to the slots and to the
/// dispatch table, and touches no name but its own.
pub proof fn lemma_declare(v: VTableView, class: ClassObject, scope: ScopeChain, t: Trait)
    requires
        ids_in_range(v),
        v.slots.len() < u32::MAX,
        v.methods.len() < u32::MAX,
    ensures
        ids_in_range(declare(v, class, scope, t)),
        v.slots.is_prefix_of(declare(v, class, scope, t).slots),
        v.methods.is_prefix_of(declare(v, class, scope, t).methods),
        declare(v, class, scope, t).slots.len() <= v.slots.len() + 1,
        declare(v, class, scope, t).methods.len() <= v.methods.len() + 1,
        declare(v, class, scope, t).traits.dom() == v.traits.dom().insert(t.name),
        forall|q: QName| q != t.name && v.traits.contains_key(q) ==> declare(v, class, scope, t).traits[q] == v.traits[q],
{
    let d = declare(v, class, scope, t);
    assert(d.traits.dom() =~= v.traits.dom().insert(t.name));
    assert forall|q: QName| #[trigger] d.traits.contains_key(q) implies match d.traits[q] {
        Property::Slot { slot_id } => slot_id < d.slots.len(),
        Property::ConstSlot { slot_id } => slot_id < d.slots.len(),
        Property::Method { disp_id } => disp_id < d.methods.len(),
        Property::Virtual { get, set } => {
            &&& get matches Some(g) ==> g < d.methods.len()
            &&& set matches Some(s) ==> s < d.methods.len()
        },
    } by {
        if q != t.name {
            assert(v.traits.contains_key(q));
        } else if v.traits.contains_key(t.name) {
            assert(v.traits.contains_key(q));
        }
    }
}

/// Declaring a class's traits over its superclass's table keeps every id in
/// range and only appends to the slots and to the dispatch table.
pub proof fn lemma_declare_all(v: VTableView, class: ClassObject, scope: ScopeChain, traits: Seq<Trait>)
    requires
        ids_in_range(v),
        v.slots.len() + traits.len() <= u32::MAX,
        v.methods.len() + traits.len() <= u32::MAX,
    ensures
        ids_in_range(declare_all(v, class, scope, traits)),
        v.slots.is_prefix_of(declare_all(v, class, scope, traits).slots),
        v.methods.is_prefix_of(declare_all(v, class, scope, traits).methods),
        declare_all(v, class, scope, traits).slots.len() <= v.slots.len() + traits.len(),
        declare_all(v, class, scope, traits).methods.len() <= v.methods.len() + traits.len(),
    decreases traits.len(),
{
    if traits.len() > 0 {
        lemma_declare_all(v, class, scope, traits.drop_last());
        lemma_declare(declare_all(v, class, scope, traits.drop_last()), class, scope, traits.last());
    }
}

/// Slot ids are stable under inheritance.
///
/// When a class declares `traits` over the table `base` of its superclass:
/// the superclass's slots, with their initial values, are the first slots of
/// the class; a name that the class does not declare resolves as it did in
/// the superclass; and a data slot that the class declares has an id at or
/// above the superclass's slot count.
pub proof fn lemma_slot_ids_stable(
    base: VTableView,
    class: ClassObject,
    scope: ScopeChain,
    traits: Seq<Trait>,
)
    requires
        ids_in_range(base),
        base.slots.len() + traits.len() <= u32::MAX,
        base.methods.len() + traits.len() <= u32::MAX,
    ensures
        base.slots.is_prefix_of(declare_all(base, class, scope, traits).slots),
        forall|q: QName|
            !declares(traits, q) ==> (declare_all(base, class, scope, traits).traits.contains_key(q)
                <==> base.traits.contains_key(q)),
        forall|q: QName|
            !declares(traits, q) && base.traits.contains_key(q) ==> declare_all(
                base,
                class,
                scope,
                traits,
            ).traits[q] == base.traits[q],
        forall|q: QName|
            declares(traits, q) ==> declare_all(base, class, scope, traits).traits.contains_key(q),
        forall|q: QName|
            declares(traits, q) ==> match slot_id_of(
                declare_all(base, class, scope, traits).traits[q],
            ) {
                Some(id) => base.slots.len() <= id < declare_all(base, class, scope, traits).slots.len(),
                None => true,
            },
    decreases traits.len(),
{
    let d = declare_all(base, class, scope, traits);
    lemma_declare_all(base, class, scope, traits);
    if traits.len() > 0 {
        let front = traits.drop_last();
        let t = traits.last();
        let f = declare_all(base, class, scope, front);
        lemma_slot_ids_stable(base, class, scope, front);
        lemma_declare_all(base, class, scope, front);
        lemma_declare(f, class, scope, t);
        assert forall|q: QName| declares(traits, q) <==> (q == t.name || declares(front, q)) by {
            if declares(traits, q) {
                let i = choose|i: int| 0 <= i < traits.len() && #[trigger] traits[i].name == q;
                if i < front.len() {
                    assert(front[i].name == q);
                }
            }
            if declares(front, q) {
                let i = choose|i: int| 0 <= i < front.len() && #[trigger] front[i].name == q;
                assert(traits[i].name == q);
            }
            if q == t.name {
                assert(traits[traits.len() - 1].name == q);
            }
        }
        assert forall|q: QName| !declares(traits, q) implies (d.traits.contains_key(q)
            <==> base.traits.contains_key(q)) by {
            assert(d.traits.dom().contains(q) <==> f.traits.dom().insert(t.name).contains(q));
        }
        assert forall|q: QName| declares(traits, q) implies d.traits.contains_key(q) by {
            assert(d.traits.dom().contains(q) <==> f.traits.dom().insert(t.name).contains(q));
        }
        assert forall|q: QName| declares(traits, q) implies match slot_id_of(d.traits[q]) {
            Some(id) => base.slots.len() <= id < d.slots.len(),
            None => true,
        } by {
            if q != t.name {
                assert(declares(front, q));
                assert(f.traits.contains_key(q));
            }
        }
    } else {
        assert forall|q: QName| !declares(traits, q) by {}
    }
}

/// A method that a class declares is bound to that class.
///
/// When `class` declares `traits` and the last declaration of a name among
/// them is a method, the name resolves to a dispatch id whose entry holds
/// that method, `class` as its declaring class, and the scope of the
/// declaration, whatever the superclass's table held under the name.
pub proof fn lemma_method_bound_to_declaring_class(
    base: VTableView,
    class: ClassObject,
    scope: ScopeChain,
    traits: Seq<Trait>,
    i: int,
)
    requires
        ids_in_range(base),
        base.slots.len() + traits.len() <= u32::MAX,
        base.methods.len() + traits.len() <= u32::MAX,
        0 <= i < traits.len(),
        traits[i].kind is Method,
        forall|j: int| i < j < traits.len() ==> traits[j].name != traits[i].name,
    ensures
        declare_all(base, class, scope, traits).traits.contains_key(traits[i].name),
        match declare_all(base, class, scope, traits).traits[traits[i].name] {
            Property::Method { disp_id } => {
                &&& base.methods.len() <= disp_id < declare_all(base, class, scope, traits).methods.len()
                &&& declare_all(base, class, scope, traits).methods[disp_id as int] == (ClassBoundMethod {
                    class,
                    scope,
                    method: traits[i].kind->Method_method,
                })
            },
            _ => false,
        },
    decreases traits.len(),
{
    let front = traits.drop_last();
    let t = traits.last();
    let f = declare_all(base, class, scope, front);
    lemma_declare_all(base, class, scope, front);
    lemma_declare(f, class, scope, t);
    if i < traits.len() - 1 {
        assert(front[i] == traits[i]);
        lemma_method_bound_to_declaring_class(base, class, scope, front, i);
        assert(t.name != traits[i].name);
    }
}

/// A property table.
pub struct VTable {
    resolved_traits: Vec<TraitEntry>,
    method_table: Vec<ClassBoundMethod>,
    default_slots: Vec<Value>,
}

impl View for VTable {
    type V = VTableView;

    closed spec fn view(&self) -> VTableView {
        VTableView {
            traits: entries_map(self.resolved_traits@),
            methods: self.method_table@,
            slots: self.default_slots@,
        }
    }
}

impl VTable {
    /// No name stands twice in the table.
    pub closed spec fn rows_distinct(&self) -> bool {
        names_unique(self.resolved_traits@)
    }

    /// The table is sound: its rows are distinct and every id that it hands
    /// out addresses an entry.
    pub open spec fn wf(&self) -> bool {
        self.rows_distinct() && ids_in_range(self@)
    }

    /// The empty table.
    pub fn empty() -> (r: VTable)
        ensures
            r.wf(),
            r@ == empty_view(),
    {
        let r = VTable {
            resolved_traits: Vec::new(),
            method_table: Vec::new(),
            default_slots: Vec::new(),
        };
        assert(r@.traits =~= Map::<QName, Property>::empty());
        r
    }

    fn find(&self, name: QName) -> (r: Option<usize>)
        ensures
            match r {
                Some(i) => i < self.resolved_traits@.len() && self.resolved_traits@[i as int].name
                    == name,
                None => !has_name(self.resolved_traits@, name),
            },
    {
        let mut i: usize = 0;
        while i < self.resolved_traits.len()
            invariant
                i <= self.resolved_traits@.len(),
                forall|j: int| 0 <= j < i ==> self.resolved_traits@[j].name != name,
            decreases self.resolved_traits@.len() - i,
        {
            if self.resolved_traits[i].name == name {
                return Some(i);
            }
            i += 1;
        }
        None
    }

    /// What the qualified name `name` resolves to, if anything.
    pub fn get_trait_by_qname(&self, name: QName) -> (r: Option<Property>)
        requires
            self.rows_distinct(),
        ensures
            r == (if self@.traits.contains_key(name) {
                Some(self@.traits[name])
            } else {
                None
            }),
    {
        match self.find(name) {
            Some(i) => {
                proof {
                    lemma_entry(self.resolved_traits@, i as int);
                }
                Some(self.resolved_traits[i].property)
            },
            None => None,
        }
    }

    /// What `name` resolves to, if anything: the entry under the first of
    /// its candidate namespaces that has one.
    pub fn get_trait(&self, name: &Multiname) -> (r: Option<Property>)
        requires
            self.rows_distinct(),
        ensures
            r == resolve(self@.traits, name.ns@, name.name),
    {
        match name.name {
            None => None,
            Some(local) => {
                let mut i: usize = 0;
                while i < name.ns.len()
                    invariant
                        self.rows_distinct(),
                        name.name == Some(local),
                        i <= name.ns@.len(),
                        resolve_from(self@.traits, name.ns@, local, 0) == resolve_from(
                            self@.traits,
                            name.ns@,
                            local,
                            i as int,
                        ),
                    decreases name.ns@.len() - i,
                {
                    let found = self.get_trait_by_qname(QName { ns: name.ns[i], name: local });
                    if found.is_some() {
                        return found;
                    }
                    i += 1;
                }
                None
            },
        }
    }

    /// Whether `name` resolves to anything.
    pub fn has_trait(&self, name: &Multiname) -> (r: bool)
        requires
            self.rows_distinct(),
        ensures
            r == resolve(self@.traits, name.ns@, name.name).is_some(),
    {
        self.get_trait(name).is_some()
    }

    /// The entry `disp_id` of the dispatch table: the method with its
    /// declaring class and scope.
    pub fn get_full_method(&self, disp_id: u32) -> (r: Option<ClassBoundMethod>)
        ensures
            r == (if disp_id < self@.methods.len() {
                Some(self@.methods[disp_id as int])
            } else {
                None
            }),
    {
        if (disp_id as usize) < self.method_table.len() {
            Some(self.method_table[disp_id as usize])
        } else {
            None
        }
    }

    /// The number of entries of the dispatch table.
    pub fn method_count(&self) -> (r: usize)
        ensures
            r == self@.methods.len(),
    {
        self.method_table.len()
    }

    /// The initial values of the slots, by slot id.
    pub fn default_slots(&self) -> (r: &Vec<Value>)
        ensures
            r@ == self@.slots,
    {
        &self.default_slots
    }

    fn insert(&mut self, name: QName, property: Property)
        requires
            old(self).rows_distinct(),
        ensures
            final(self).rows_distinct(),
            final(self)@.traits == old(self)@.traits.insert(name, property),
            final(self).method_table == old(self).method_table,
            final(self).default_slots == old(self).default_slots,
    {
        let entry = TraitEntry { name, property };
        match self.find(name) {
            Some(i) => {
                proof {
                    lemma_update(self.resolved_traits@, i as int, entry);
                }
                self.resolved_traits.set(i, entry);
            },
            None => {
                proof {
                    lemma_push(self.resolved_traits@, entry);
                }
                self.resolved_traits.push(entry);
            },
        }
    }
    /// The table of the scope of a `catch` clause: two slots, of which the
    /// second, with the id one, holds the caught value under `name`.
    pub fn newcatch(name: QName) -> (r: VTable)
        ensures
            r.wf(),
            r@.traits == Map::<QName, Property>::empty().insert(name, Property::Slot { slot_id: 1 }),
            r@.slots == seq![Value::Undefined, Value::Undefined],
            r@.methods.len() == 0,
    {
        let mut r = VTable::empty();
        r.default_slots.push(Value::Undefined);
        r.default_slots.push(Value::Undefined);
        r.insert(name, Property::Slot { slot_id: 1 });
        assert(r@.slots =~= seq![Value::Undefined, Value::Undefined]);
        proof {
            let v = r@;
            assert forall|q: QName| #[trigger] v.traits.contains_key(q) implies match v.traits[q] {
                Property::Slot { slot_id } => slot_id < v.slots.len(),
                Property::ConstSlot { slot_id } => slot_id < v.slots.len(),
                Property::Method { disp_id } => disp_id < v.methods.len(),
                Property::Virtual { get, set } => {
                    &&& get matches Some(g) ==> g < v.methods.len()
                    &&& set matches Some(s) ==> s < v.methods.len()
                },
            } by {
                assert(q == name);
            }
        }
        r
    }

    /// Declares one trait for `class`.
    fn declare(&mut self, class: ClassObject, scope: ScopeChain, t: Trait)
        requires
            old(self).rows_distinct(),
            old(self)@.slots.len() < u32::MAX,
            old(self)@.methods.len() < u32::MAX,
        ensures
            final(self).rows_distinct(),
            final(self)@ == declare(old(self)@, class, scope, t),
    {
        let slot_id = self.default_slots.len() as u32;
        let disp_id = self.method_table.len() as u32;
        match t.kind {
            TraitKind::Slot { slot_type, default_value } => {
                let value = match default_value {
                    Some(v) => v,
                    None => slot_type.zero_value(),
                };
                self.insert(t.name, Property::Slot { slot_id });
                self.default_slots.push(value);
            },
            TraitKind::Const { slot_type, default_value } => {
                let value = match default_value {
                    Some(v) => v,
                    None => slot_type.zero_value(),
                };
                self.insert(t.name, Property::ConstSlot { slot_id });
                self.default_slots.push(value);
            },
            TraitKind::Method { method } => {
                self.insert(t.name, Property::Method { disp_id });
                self.method_table.push(ClassBoundMethod { class, scope, method });
            },
            TraitKind::Getter { method } => {
                let set = match self.get_trait_by_qname(t.name) {
                    Some(Property::Virtual { get, set }) => set,
                    _ => None,
                };
                self.insert(t.name, Property::Virtual { get: Some(disp_id), set });
                self.method_table.push(ClassBoundMethod { class, scope, method });
            },
            TraitKind::Setter { method } => {
                let get = match self.get_trait_by_qname(t.name) {
                    Some(Property::Virtual { get, set }) => get,
                    _ => None,
                };
                self.insert(t.name, Property::Virtual { get, set: Some(disp_id) });
                self.method_table.push(ClassBoundMethod { class, scope, method });
            },
        }
    }

    /// Builds the table of a class: the table of its superclass, or the
    /// empty table for a class without one, with each of the class's own
    /// traits declared over it in order.
    pub fn init_vtable(
        &mut self,
        defining_class: ClassObject,
        traits: &Vec<Trait>,
        scope: ScopeChain,
        superclass_vtable: Option<&VTable>,
    )
        requires
            superclass_vtable matches Some(s) ==> s.wf(),
            base_of(superclass_vtable).slots.len() + traits@.len() <= u32::MAX,
            base_of(superclass_vtable).methods.len() + traits@.len()
                <= u32::MAX,
        ensures
            final(self).wf(),
            final(self)@ == declare_all(
                base_of(superclass_vtable),
                defining_class,
                scope,
                traits@,
            ),
    {
        let ghost base = base_of(superclass_vtable);
        match superclass_vtable {
            Some(s) => {
                self.resolved_traits = copy_vec(&s.resolved_traits);
                self.method_table = copy_vec(&s.method_table);
                self.default_slots = copy_vec(&s.default_slots);
            },
            None => {
                self.resolved_traits = Vec::new();
                self.method_table = Vec::new();
                self.default_slots = Vec::new();
                assert(self@.traits =~= Map::<QName, Property>::empty());
            },
        }
        assert(self@ == base);
        let mut i: usize = 0;
        assert(traits@.take(0) =~= Seq::<Trait>::empty());
        while i < traits.len()
            invariant
                i <= traits@.len(),
                ids_in_range(base),
                base.slots.len() + traits@.len() <= u32::MAX,
                base.methods.len() + traits@.len() <= u32::MAX,
                self.rows_distinct(),
                self@ == declare_all(base, defining_class, scope, traits@.take(i as int)),
            decreases traits@.len() - i,
        {
            proof {
                lemma_declare_all(base, defining_class, scope, traits@.take(i as int));
                assert(traits@.take(i + 1).drop_last() =~= traits@.take(i as int));
                assert(traits@.take(i + 1).last() == traits@[i as int]);
            }
            self.declare(defining_class, scope, traits[i]);
            i += 1;
        }
        proof {
            assert(traits@.take(i as int) =~= traits@);
            lemma_declare_all(base, defining_class, scope, traits@);
        }
    }

    /// Makes `public_name` resolve to what `interface_name` resolves to; does
    /// nothing where `interface_name` resolves to nothing.
    pub fn copy_property_for_interface(&mut self, public_name: QName, interface_name: QName)
        requires
            old(self).wf(),
        ensures
            final(self).wf(),
            final(self)@ == alias(old(self)@, public_name, interface_name),
    {
        match self.get_trait_by_qname(interface_name) {
            Some(property) => {
                self.insert(public_name, property);
                proof {
                    let before = old(self)@;
                    let after = self@;
                    assert(before.traits.contains_key(interface_name));
                    assert forall|q: QName| #[trigger] after.traits.contains_key(q) implies match after.traits[q] {
                        Property::Slot { slot_id } => slot_id < after.slots.len(),
                        Property::ConstSlot { slot_id } => slot_id < after.slots.len(),
                        Property::Method { disp_id } => disp_id < after.methods.len(),
                        Property::Virtual { get, set } => {
                            &&& get matches Some(g) ==> g < after.methods.len()
                            &&& set matches Some(s) ==> s < after.methods.len()
                        },
                    } by {
                        if q != public_name {
                            assert(before.traits.contains_key(q));
                        }
                    }
                }
            },
            None => {},
        }
    }
}

/// The table `v` with `public_name` resolving to what `interface_name`
/// resolves to; `v` itself where `interface_name` resolves to nothing.
pub open spec fn alias(v: VTableView, public_name: QName, interface_name: QName) -> VTableView {
    if v.traits.contains_key(interface_name) {
        VTableView {
            traits: v.traits.insert(public_name, v.traits[interface_name]),
            methods: v.methods,
            slots: v.slots,
        }
    } else {
        v
    }
}

pub(crate) fn copy_vec<T: Copy>(v: &Vec<T>) -> (r: Vec<T>)
    ensures
        r@ == v@,
{
    let mut r: Vec<T> = Vec::new();
    let mut i: usize = 0;
    while i < v.len()
        invariant
            i <= v@.len(),
            r@ == v@.take(i as int),
        decreases v@.len() - i,
    {
        r.push(v[i]);
        assert(v@.take(i + 1) =~= v@.take(i as int).push(v@[i as int]));
        i += 1;
    }
    assert(v@.take(i as int) =~= v@);
    r
}

/// What a multiname resolves to stands in the table under one of the names
/// that the multiname may stand for.
pub proof fn lemma_resolve_from(traits: Map<QName, Property>, ns: Seq<Namespace>, name: Atom, i: int)
    requires
        0 <= i,
    ensures
        match resolve_from(traits, ns, name, i) {
            Some(p) => exists|k: int|
                i <= k < ns.len() && traits.contains_key(QName { ns: #[trigger] ns[k], name })
                    && traits[QName { ns: ns[k], name }] == p,
            None => forall|k: int|
                i <= k < ns.len() ==> !traits.contains_key(QName { ns: #[trigger] ns[k], name }),
        },
    decreases ns.len() - i,
{
    if i < ns.len() && !traits.contains_key(QName { ns: ns[i], name }) {
        lemma_resolve_from(traits, ns, name, i + 1);
    }
}

/// In a table whose ids are in range, what a multiname resolves to has its
/// ids in range.
pub proof fn lemma_resolved_in_range(v: VTableView, ns: Seq<Namespace>, name: Option<Atom>)
    requires
        ids_in_range(v),
    ensures
        match resolve(v.traits, ns, name) {
            Some(Property::Slot { slot_id }) => slot_id < v.slots.len(),
            Some(Property::ConstSlot { slot_id }) => slot_id < v.slots.len(),
            Some(Property::Method { disp_id }) => disp_id < v.methods.len(),
            Some(Property::Virtual { get, set }) => {
                &&& get matches Some(g) ==> g < v.methods.len()
                &&& set matches Some(s) ==> s < v.methods.len()
            },
            None => true,
        },
{
    match name {
        Some(n) => {
            lemma_resolve_from(v.traits, ns, n, 0);
            if resolve_from(v.traits, ns, n, 0) is Some {
                let k = choose|k: int|
                    0 <= k < ns.len() && v.traits.contains_key(QName { ns: #[trigger] ns[k], name: n })
                        && v.traits[QName { ns: ns[k], name: n }] == resolve_from(
                        v.traits,
                        ns,
                        n,
                        0,
                    )->0;
                assert(v.traits.contains_key(QName { ns: ns[k], name: n }));
            }
        },
        None => {},
    }
}

} // verus!
