//! The state that every object has: dynamic properties, slots, bound
//! methods, a prototype and a class.

use vstd::prelude::*;
use fnv::FnvHashMap;
use crate::class_object::ClassObject;
use crate::error::Error;
use crate::fnv_map::fnv_get;
use crate::fnv_map::fnv_insert;
use crate::fnv_map::fnv_new;
use crate::fnv_map::fnv_remove;
use crate::multiname::Multiname;
use crate::qname::QName;
use crate::runtime::Runtime;
use crate::vtable::resolve;
use crate::value::Atom;
use crate::value::ObjectId;
use crate::value::VTableId;
use crate::value::Value;
use crate::vtable::VTable;

verus! {

/// The generic state of an object.
pub struct ScriptObjectData {
    /// The dynamic properties, by local name.
    pub values: FnvHashMap<Atom, Value>,
    /// The slots, by slot id.
    pub slots: Vec<Value>,
    /// The bound methods made so far, by dispatch id.
    pub bound_methods: Vec<Option<ObjectId>>,
    /// The prototype, where dynamic lookups go on.
    pub proto: Option<ObjectId>,
    /// The class of which this object is an instance, if it has one.
    pub instance_of: Option<ClassObject>,
    /// The property table of the object's traits, if it has one.
    pub vtable: Option<VTableId>,
    /// The names of the dynamic properties that enumeration visits, in the
    /// order in which they first appeared.
    pub enumerants: Vec<Atom>,
    /// Whether the owning class is sealed.
    pub sealed: bool,
}

impl ScriptObjectData {
    /// The enumerable names are dynamic properties, each named once.
    pub open spec fn wf(&self) -> bool {
        &&& self.enumerants@.no_duplicates()
        &&& forall|i: int|
            0 <= i < self.enumerants@.len() ==> self.values@.contains_key(
                #[trigger] self.enumerants@[i],
            )
    }

    /// The local name under which `multiname` reaches the dynamic
    /// properties: its local name, if the public namespace is among its
    /// candidates.
    pub open spec fn dynamic_name(multiname: &Multiname) -> Option<Atom> {
        if multiname.spec_contains_public_namespace() {
            multiname.name
        } else {
            None
        }
    }

    /// Object state with no properties, slots or bound methods.
    pub fn custom_new(
        proto: Option<ObjectId>,
        instance_of: Option<ClassObject>,
        vtable: Option<VTableId>,
        sealed: bool,
    ) -> (r: ScriptObjectData)
        ensures
            r.wf(),
            r.values@ == Map::<Atom, Value>::empty(),
            r.slots@ == Seq::<Value>::empty(),
            r.bound_methods@ == Seq::<Option<ObjectId>>::empty(),
            r.enumerants@ == Seq::<Atom>::empty(),
            r.proto == proto,
            r.instance_of == instance_of,
            r.vtable == vtable,
            r.sealed == sealed,
    {
        ScriptObjectData {
            values: fnv_new(),
            slots: Vec::new(),
            bound_methods: Vec::new(),
            proto,
            instance_of,
            vtable,
            enumerants: Vec::new(),
            sealed,
        }
    }

    /// The object's own dynamic property of this name, if it has one.
    pub fn get_own_dynamic_property(&self, name: Atom) -> (r: Option<Value>)
        ensures
            r == (if self.values@.contains_key(name) {
                Some(self.values@[name])
            } else {
                None
            }),
    {
        fnv_get(&self.values, name)
    }

    /// Writes a dynamic property.
    ///
    /// Fails, leaving the object as it was, if the object is sealed, if the
    /// public namespace is not among the name's candidates, or if the name has
    /// no local name. A name that is new to the object becomes the last of
    /// its enumerable names.
    pub fn set_property_local(&mut self, multiname: &Multiname, value: Value) -> (r: Result<
        (),
        Error,
    >)
        requires
            old(self).wf(),
        ensures
            final(self).wf(),
            final(self).slots == old(self).slots,
            final(self).bound_methods == old(self).bound_methods,
            final(self).proto == old(self).proto,
            final(self).instance_of == old(self).instance_of,
            final(self).vtable == old(self).vtable,
            final(self).sealed == old(self).sealed,
            match (old(self).sealed, Self::dynamic_name(multiname)) {
                (false, Some(name)) => {
                    &&& r is Ok
                    &&& final(self).values@ == old(self).values@.insert(name, value)
                    &&& final(self).enumerants@ == if old(self).values@.contains_key(name) {
                        old(self).enumerants@
                    } else {
                        old(self).enumerants@.push(name)
                    }
                },
                _ => {
                    &&& r == Err::<(), Error>(
                        Error::InvalidWrite { name: multiname.name, class: old(self).instance_of },
                    )
                    &&& final(self).values@ == old(self).values@
                    &&& final(self).enumerants@ == old(self).enumerants@
                },
            },
    {
        if self.sealed || !multiname.contains_public_namespace() {
            return Err(Error::InvalidWrite { name: multiname.name, class: self.instance_of });
        }
        let local_name = match multiname.local_name() {
            Some(n) => n,
            None => {
                return Err(Error::InvalidWrite { name: multiname.name, class: self.instance_of });
            },
        };
        if fnv_get(&self.values, local_name).is_none() {
            proof {
                if self.enumerants@.contains(local_name) {
                    let i = self.enumerants@.index_of(local_name);
                    assert(self.values@.contains_key(self.enumerants@[i]));
                }
            }
            self.enumerants.push(local_name);
        }
        fnv_insert(&mut self.values, local_name, value);
        Ok(())
    }

    /// Writes a dynamic property for the first time; the same as
    /// `set_property_local`.
    pub fn init_property_local(&mut self, multiname: &Multiname, value: Value) -> (r: Result<
        (),
        Error,
    >)
        requires
            old(self).wf(),
        ensures
            final(self).wf(),
            final(self).slots == old(self).slots,
            final(self).bound_methods == old(self).bound_methods,
            final(self).proto == old(self).proto,
            final(self).instance_of == old(self).instance_of,
            final(self).vtable == old(self).vtable,
            final(self).sealed == old(self).sealed,
            match (old(self).sealed, Self::dynamic_name(multiname)) {
                (false, Some(name)) => {
                    &&& r is Ok
                    &&& final(self).values@ == old(self).values@.insert(name, value)
                    &&& final(self).enumerants@ == if old(self).values@.contains_key(name) {
                        old(self).enumerants@
                    } else {
                        old(self).enumerants@.push(name)
                    }
                },
                _ => {
                    &&& r == Err::<(), Error>(
                        Error::InvalidWrite { name: multiname.name, class: old(self).instance_of },
                    )
                    &&& final(self).values@ == old(self).values@
                    &&& final(self).enumerants@ == old(self).enumerants@
                },
            },
    {
        self.set_property_local(multiname, value)
    }

    /// Reads a slot.
    pub fn get_slot(&self, id: u32) -> (r: Result<Value, Error>)
        ensures
            r == (if id < self.slots@.len() {
                Ok::<Value, Error>(self.slots@[id as int])
            } else {
                Err::<Value, Error>(Error::SlotOutOfBounds { id })
            }),
    {
        if (id as usize) < self.slots.len() {
            Ok(self.slots[id as usize])
        } else {
            Err(Error::SlotOutOfBounds { id })
        }
    }

    /// Writes a slot.
    pub fn set_slot(&mut self, id: u32, value: Value) -> (r: Result<(), Error>)
        ensures
            final(self).values == old(self).values,
            final(self).bound_methods == old(self).bound_methods,
            final(self).proto == old(self).proto,
            final(self).instance_of == old(self).instance_of,
            final(self).vtable == old(self).vtable,
            final(self).enumerants == old(self).enumerants,
            final(self).sealed == old(self).sealed,
            id < old(self).slots@.len() ==> r is Ok && final(self).slots@ == old(self).slots@.update(
                id as int,
                value,
            ),
            id >= old(self).slots@.len() ==> r == Err::<(), Error>(Error::SlotOutOfBounds { id })
                && final(self).slots@ == old(self).slots@,
    {
        if (id as usize) < self.slots.len() {
            self.slots.set(id as usize, value);
            Ok(())
        } else {
            Err(Error::SlotOutOfBounds { id })
        }
    }

    /// Writes a slot for the first time; the same as `set_slot`.
    pub fn init_slot(&mut self, id: u32, value: Value) -> (r: Result<(), Error>)
        ensures
            final(self).values == old(self).values,
            final(self).bound_methods == old(self).bound_methods,
            final(self).proto == old(self).proto,
            final(self).instance_of == old(self).instance_of,
            final(self).vtable == old(self).vtable,
            final(self).enumerants == old(self).enumerants,
            final(self).sealed == old(self).sealed,
            id < old(self).slots@.len() ==> r is Ok && final(self).slots@ == old(self).slots@.update(
                id as int,
                value,
            ),
            id >= old(self).slots@.len() ==> r == Err::<(), Error>(Error::SlotOutOfBounds { id })
                && final(self).slots@ == old(self).slots@,
    {
        self.set_slot(id, value)
    }

    /// Appends the initial values of `vtable`'s slots to the slots.
    pub fn install_instance_slots(&mut self, vtable: &VTable)
        ensures
            final(self).slots@ == old(self).slots@ + vtable@.slots,
            final(self).values == old(self).values,
            final(self).bound_methods == old(self).bound_methods,
            final(self).proto == old(self).proto,
            final(self).instance_of == old(self).instance_of,
            final(self).vtable == old(self).vtable,
            final(self).enumerants == old(self).enumerants,
            final(self).sealed == old(self).sealed,
    {
        let defaults = vtable.default_slots();
        let mut i: usize = 0;
        while i < defaults.len()
            invariant
                i <= defaults@.len(),
                self.slots@ == old(self).slots@ + defaults@.take(i as int),
                self.values == old(self).values,
                self.bound_methods == old(self).bound_methods,
                self.proto == old(self).proto,
                self.instance_of == old(self).instance_of,
                self.vtable == old(self).vtable,
                self.enumerants == old(self).enumerants,
                self.sealed == old(self).sealed,
            decreases defaults@.len() - i,
        {
            self.slots.push(defaults[i]);
            assert(defaults@.take(i + 1) =~= defaults@.take(i as int).push(defaults@[i as int]));
            assert(self.slots@ =~= old(self).slots@ + defaults@.take(i + 1));
            i += 1;
        }
        assert(defaults@.take(i as int) =~= defaults@);
    }
    /// Deletes a dynamic property: the name leaves the dynamic properties and
    /// the enumerable names.
    ///
    /// Returns `false`, leaving the object as it was, if the public namespace
    /// is not among the name's candidates or if the name has no local name.
    pub fn delete_property_local(&mut self, multiname: &Multiname) -> (r: bool)
        requires
            old(self).wf(),
        ensures
            final(self).wf(),
            final(self).slots == old(self).slots,
            final(self).bound_methods == old(self).bound_methods,
            final(self).proto == old(self).proto,
            final(self).instance_of == old(self).instance_of,
            final(self).vtable == old(self).vtable,
            final(self).sealed == old(self).sealed,
            match Self::dynamic_name(multiname) {
                Some(name) => {
                    &&& r
                    &&& final(self).values@ == old(self).values@.remove(name)
                    &&& final(self).enumerants@ == without(old(self).enumerants@, name)
                },
                None => {
                    &&& !r
                    &&& final(self).values@ == old(self).values@
                    &&& final(self).enumerants@ == old(self).enumerants@
                },
            },
    {
        if !multiname.contains_public_namespace() {
            return false;
        }
        match multiname.local_name() {
            Some(name) => {
                self.set_local_property_is_enumerable(name, false);
                fnv_remove(&mut self.values, name);
                proof {
                    lemma_without(old(self).enumerants@, name);
                }
                true
            },
            None => false,
        }
    }

    /// Writes a slot, extending the slots with `undefined` up to it where
    /// there are too few.
    pub fn install_const_slot_late(&mut self, id: u32, value: Value)
        requires
            id < usize::MAX,
        ensures
            final(self).slots@ == padded(old(self).slots@, id + 1, Value::Undefined).update(
                id as int,
                value,
            ),
            final(self).values == old(self).values,
            final(self).bound_methods == old(self).bound_methods,
            final(self).proto == old(self).proto,
            final(self).instance_of == old(self).instance_of,
            final(self).vtable == old(self).vtable,
            final(self).enumerants == old(self).enumerants,
            final(self).sealed == old(self).sealed,
    {
        let index = id as usize;
        while self.slots.len() <= index
            invariant
                self.slots@.len() <= index + 1 || self.slots@.len() == old(self).slots@.len(),
                old(self).slots@.len() <= self.slots@.len(),
                self.slots@ == padded(old(self).slots@, self.slots@.len() as int, Value::Undefined),
                self.values == old(self).values,
                self.bound_methods == old(self).bound_methods,
                self.proto == old(self).proto,
                self.instance_of == old(self).instance_of,
                self.vtable == old(self).vtable,
                self.enumerants == old(self).enumerants,
                self.sealed == old(self).sealed,
            decreases index + 1 - self.slots@.len(),
        {
            self.slots.push(Value::Undefined);
            assert(self.slots@ =~= padded(old(self).slots@, self.slots@.len() as int, Value::Undefined));
        }
        assert(self.slots@ =~= padded(old(self).slots@, id + 1, Value::Undefined));
        self.slots.set(index, value);
    }

    /// The bound method cached under `id`, if there is one.
    pub fn get_bound_method(&self, id: u32) -> (r: Option<ObjectId>)
        ensures
            r == (if id < self.bound_methods@.len() {
                self.bound_methods@[id as int]
            } else {
                None
            }),
    {
        if (id as usize) < self.bound_methods.len() {
            self.bound_methods[id as usize]
        } else {
            None
        }
    }

    /// Caches `function` as the bound method under `disp_id`, in place of
    /// whatever was cached there.
    pub fn install_bound_method(&mut self, disp_id: u32, function: ObjectId)
        requires
            disp_id < usize::MAX,
        ensures
            final(self).bound_methods@ == padded(old(self).bound_methods@, disp_id + 1, None).update(
                disp_id as int,
                Some(function),
            ),
            final(self).values == old(self).values,
            final(self).slots == old(self).slots,
            final(self).proto == old(self).proto,
            final(self).instance_of == old(self).instance_of,
            final(self).vtable == old(self).vtable,
            final(self).enumerants == old(self).enumerants,
            final(self).sealed == old(self).sealed,
    {
        let index = disp_id as usize;
        while self.bound_methods.len() <= index
            invariant
                self.bound_methods@.len() <= index + 1 || self.bound_methods@.len() == old(
                    self,
                ).bound_methods@.len(),
                old(self).bound_methods@.len() <= self.bound_methods@.len(),
                self.bound_methods@ == padded(
                    old(self).bound_methods@,
                    self.bound_methods@.len() as int,
                    None,
                ),
                self.values == old(self).values,
                self.slots == old(self).slots,
                self.proto == old(self).proto,
                self.instance_of == old(self).instance_of,
                self.vtable == old(self).vtable,
                self.enumerants == old(self).enumerants,
                self.sealed == old(self).sealed,
            decreases index + 1 - self.bound_methods@.len(),
        {
            self.bound_methods.push(None);
            assert(self.bound_methods@ =~= padded(
                old(self).bound_methods@,
                self.bound_methods@.len() as int,
                None,
            ));
        }
        assert(self.bound_methods@ =~= padded(old(self).bound_methods@, disp_id + 1, None));
        self.bound_methods.set(index, Some(function));
    }

    /// Whether the object has a dynamic property under `name`.
    pub fn has_own_dynamic_property(&self, name: &Multiname) -> (r: bool)
        ensures
            r == match Self::dynamic_name(name) {
                Some(n) => self.values@.contains_key(n),
                None => false,
            },
    {
        if name.contains_public_namespace() {
            match name.local_name() {
                Some(n) => {
                    return fnv_get(&self.values, n).is_some();
                },
                None => {},
            }
        }
        false
    }

    /// The prototype.
    pub fn proto(&self) -> (r: Option<ObjectId>)
        ensures
            r == self.proto,
    {
        self.proto
    }

    /// Sets the prototype.
    pub fn set_proto(&mut self, proto: ObjectId)
        ensures
            *final(self) == (ScriptObjectData { proto: Some(proto), ..*old(self) }),
    {
        self.proto = Some(proto);
    }

    /// The index that follows `last_index` in enumeration, or `None` when
    /// `last_index` was the last one. Indices count from one: zero starts an
    /// enumeration and is never returned.
    pub fn get_next_enumerant(&self, last_index: u32) -> (r: Option<u32>)
        ensures
            r == (if last_index < self.enumerants@.len() {
                Some(if last_index == u32::MAX { last_index } else { (last_index + 1) as u32 })
            } else {
                None
            }),
    {
        if (last_index as usize) < self.enumerants.len() {
            if last_index == u32::MAX {
                Some(last_index)
            } else {
                Some(last_index + 1)
            }
        } else {
            None
        }
    }

    /// The name at `index` of the enumeration, counted from one; `None` for
    /// zero and for an index beyond the enumerable names.
    pub fn get_enumerant_name(&self, index: u32) -> (r: Option<Value>)
        ensures
            r == (if 1 <= index <= self.enumerants@.len() {
                Some(Value::String(self.enumerants@[index - 1]))
            } else {
                None
            }),
    {
        if index == 0 {
            return None;
        }
        let true_index = (index - 1) as usize;
        if true_index < self.enumerants.len() {
            Some(Value::String(self.enumerants[true_index]))
        } else {
            None
        }
    }

    fn enumerant_position(&self, name: Atom) -> (r: Option<usize>)
        ensures
            match r {
                Some(i) => i < self.enumerants@.len() && self.enumerants@[i as int] == name,
                None => !self.enumerants@.contains(name),
            },
    {
        let mut i: usize = 0;
        while i < self.enumerants.len()
            invariant
                i <= self.enumerants@.len(),
                forall|j: int| 0 <= j < i ==> self.enumerants@[j] != name,
            decreases self.enumerants@.len() - i,
        {
            if self.enumerants[i] == name {
                return Some(i);
            }
            i += 1;
        }
        None
    }

    /// Whether enumeration visits `name`.
    pub fn property_is_enumerable(&self, name: Atom) -> (r: bool)
        ensures
            r == self.enumerants@.contains(name),
    {
        self.enumerant_position(name).is_some()
    }

    /// Makes enumeration visit `name`, or pass over it.
    ///
    /// A name becomes enumerable only if it is a dynamic property, and then
    /// it is visited last; a name that is enumerable already keeps its place.
    pub fn set_local_property_is_enumerable(&mut self, name: Atom, is_enumerable: bool)
        requires
            old(self).wf(),
        ensures
            final(self).wf(),
            final(self).values == old(self).values,
            final(self).slots == old(self).slots,
            final(self).bound_methods == old(self).bound_methods,
            final(self).proto == old(self).proto,
            final(self).instance_of == old(self).instance_of,
            final(self).vtable == old(self).vtable,
            final(self).sealed == old(self).sealed,
            final(self).enumerants@ == (if is_enumerable {
                if old(self).values@.contains_key(name) && !old(self).enumerants@.contains(name) {
                    old(self).enumerants@.push(name)
                } else {
                    old(self).enumerants@
                }
            } else {
                without(old(self).enumerants@, name)
            }),
    {
        let at = self.enumerant_position(name);
        proof {
            lemma_without(self.enumerants@, name);
        }
        if is_enumerable {
            if at.is_none() && fnv_get(&self.values, name).is_some() {
                self.enumerants.push(name);
            }
        } else {
            match at {
                Some(i) => {
                    self.enumerants.remove(i);
                },
                None => {},
            }
        }
    }

    /// The number of enumerable names.
    pub fn num_enumerants(&self) -> (r: usize)
        ensures
            r == self.enumerants@.len(),
    {
        self.enumerants.len()
    }

    /// The class of which this object is an instance, if it has one.
    pub fn instance_of(&self) -> (r: Option<ClassObject>)
        ensures
            r == self.instance_of,
    {
        self.instance_of
    }

    /// The property table of the object's traits, if it has one.
    pub fn vtable(&self) -> (r: Option<VTableId>)
        ensures
            r == self.vtable,
    {
        self.vtable
    }

    /// Whether the object is sealed: whether it refuses dynamic properties.
    pub fn is_sealed(&self) -> (r: bool)
        ensures
            r == self.sealed,
    {
        self.sealed
    }

    /// Makes the object an instance of `instance_of`, with that class's
    /// property table and sealing.
    pub fn set_instance_of(&mut self, instance_of: ClassObject, vtable: VTableId, sealed: bool)
        ensures
            *final(self) == (ScriptObjectData {
                instance_of: Some(instance_of),
                vtable: Some(vtable),
                sealed,
                ..*old(self)
            }),
    {
        self.instance_of = Some(instance_of);
        self.vtable = Some(vtable);
        self.sealed = sealed;
    }

    /// Sets the property table.
    pub fn set_vtable(&mut self, vtable: VTableId)
        ensures
            *final(self) == (ScriptObjectData { vtable: Some(vtable), ..*old(self) }),
    {
        self.vtable = Some(vtable);
    }
}

/// `names` without `name`.
pub open spec fn without(names: Seq<Atom>, name: Atom) -> Seq<Atom> {
    names.filter(|a: Atom| a != name)
}

/// `s`, extended with `fill` to the length `n` where it is shorter.
pub open spec fn padded<T>(s: Seq<T>, n: int, fill: T) -> Seq<T> {
    if s.len() >= n {
        s
    } else {
        s + Seq::new((n - s.len()) as nat, |i: int| fill)
    }
}

/// In a list without duplicates, taking a name out removes its one
/// occurrence and leaves a list without duplicates.
pub proof fn lemma_without(names: Seq<Atom>, name: Atom)
    requires
        names.no_duplicates(),
    ensures
        without(names, name).no_duplicates(),
        !without(names, name).contains(name),
        forall|a: Atom| a != name ==> (without(names, name).contains(a) <==> names.contains(a)),
        !names.contains(name) ==> without(names, name) == names,
        forall|i: int|
            0 <= i < names.len() && names[i] == name ==> without(names, name) == names.remove(i),
    decreases names.len(),
{
    reveal(Seq::filter);
    let pred = |a: Atom| a != name;
    if names.len() > 0 {
        let front = names.drop_last();
        lemma_without(front, name);
        assert(front.no_duplicates());
        assert forall|a: Atom| a != name implies (without(names, name).contains(a)
            <==> names.contains(a)) by {
            if names.contains(a) {
                let i = choose|i: int| 0 <= i < names.len() && names[i] == a;
                if i < front.len() {
                    assert(front[i] == a);
                    assert(front.contains(a));
                } else {
                    assert(without(names, name).last() == a);
                }
            }
            if without(names, name).contains(a) {
                if front.contains(a) {
                    let i = choose|i: int| 0 <= i < front.len() && front[i] == a;
                    assert(names[i] == a);
                } else {
                    assert(names[names.len() - 1] == a);
                }
            }
        }
        if names.last() != name {
            assert(without(names, name) == without(front, name).push(names.last()));
            assert(!front.contains(names.last())) by {
                if front.contains(names.last()) {
                    let i = choose|i: int| 0 <= i < front.len() && front[i] == names.last();
                    assert(names[i] == names[names.len() - 1]);
                }
            }
            if !names.contains(name) {
                assert(!front.contains(name)) by {
                    if front.contains(name) {
                        let i = choose|i: int| 0 <= i < front.len() && front[i] == name;
                        assert(names[i] == name);
                    }
                }
                assert(without(names, name) =~= names);
            }
            assert forall|i: int| 0 <= i < names.len() && names[i] == name implies without(
                names,
                name,
            ) == names.remove(i) by {
                assert(front[i] == name);
                assert(names.remove(i) =~= front.remove(i).push(names.last()));
            }
        } else {
            assert(without(names, name) == without(front, name));
            assert(!front.contains(name)) by {
                if front.contains(name) {
                    let i = choose|i: int| 0 <= i < front.len() && front[i] == name;
                    assert(names[i] == names[names.len() - 1]);
                }
            }
            assert forall|i: int| 0 <= i < names.len() && names[i] == name implies without(
                names,
                name,
            ) == names.remove(i) by {
                if i < front.len() {
                    assert(front[i] == name);
                    assert(front.contains(name));
                }
                assert(names.remove(i) =~= front);
            }
        }
    } else {
        assert(without(names, name) =~= names);
    }
}

/// What a read of the dynamic property `name` gives on an object with the
/// own dynamic properties `values`, the prototype `proto` and the sealing
/// `sealed`: the object's own value; else the value of the first object on
/// the prototype chain that has one; else `undefined`, or `None` on a sealed
/// object.
pub open spec fn read_dynamic(
    rt: &Runtime,
    values: Map<Atom, Value>,
    proto: Option<ObjectId>,
    sealed: bool,
    name: Atom,
) -> Option<Value> {
    if values.contains_key(name) {
        Some(values[name])
    } else {
        match rt.lookup_chain(proto, name, rt.objects@.len()) {
            Some(v) => Some(v),
            None => if sealed {
                None
            } else {
                Some(Value::Undefined)
            },
        }
    }
}

impl ScriptObjectData {
    /// The state of a new instance of `instance_of`: no properties and no
    /// slots yet, the class's prototype, property table and sealing.
    pub fn new(instance_of: ClassObject, rt: &Runtime) -> (r: ScriptObjectData)
        requires
            rt.wf(),
            rt.has_class(instance_of),
        ensures
            rt.admits(&r),
            r.values@ == Map::<Atom, Value>::empty(),
            r.slots@ == Seq::<Value>::empty(),
            r.bound_methods@ == Seq::<Option<ObjectId>>::empty(),
            r.enumerants@ == Seq::<Atom>::empty(),
            r.proto == rt.classes@[instance_of.0 as int].prototype,
            r.instance_of == Some(instance_of),
            r.vtable == Some(rt.classes@[instance_of.0 as int].instance_vtable),
            r.sealed == rt.definition_of(instance_of).is_sealed,
    {
        proof {
            assert(rt.class_wf(instance_of.0 as int));
        }
        let data = &rt.classes[instance_of.0];
        let sealed = rt.definitions[data.class].is_sealed;
        ScriptObjectData::custom_new(
            data.prototype,
            Some(instance_of),
            Some(data.instance_vtable),
            sealed,
        )
    }

    /// Reads a dynamic property.
    ///
    /// Fails if the public namespace is not among the name's candidates or if
    /// the name has no local name. Otherwise the object's own property is
    /// read; else that of the first object on the prototype chain that has
    /// one; else the read gives `undefined`, or fails on a sealed object. A
    /// prototype chain is followed for as many links as the heap has objects.
    pub fn get_property_local(&self, multiname: &Multiname, rt: &Runtime) -> (r: Result<
        Value,
        Error,
    >)
        ensures
            r == (match Self::dynamic_name(multiname) {
                Some(name) => match read_dynamic(rt, self.values@, self.proto, self.sealed, name) {
                    Some(v) => Ok::<Value, Error>(v),
                    None => Err::<Value, Error>(
                        Error::InvalidRead { name: multiname.name, class: self.instance_of },
                    ),
                },
                None => Err::<Value, Error>(
                    Error::InvalidRead { name: multiname.name, class: self.instance_of },
                ),
            }),
    {
        let failure = Error::InvalidRead { name: multiname.name, class: self.instance_of };
        if !multiname.contains_public_namespace() {
            return Err(failure);
        }
        let local_name = match multiname.local_name() {
            Some(n) => n,
            None => {
                return Err(failure);
            },
        };
        match fnv_get(&self.values, local_name) {
            Some(v) => {
                return Ok(v);
            },
            None => {},
        }
        let mut proto = self.proto;
        let mut fuel: usize = rt.objects.len();
        while fuel > 0 && proto.is_some()
            invariant
                Self::dynamic_name(multiname) == Some(local_name),
                !self.values@.contains_key(local_name),
                failure == (Error::InvalidRead { name: multiname.name, class: self.instance_of }),
                rt.lookup_chain(self.proto, local_name, rt.objects@.len()) == rt.lookup_chain(
                    proto,
                    local_name,
                    fuel as nat,
                ),
            decreases fuel,
        {
            let o = proto.unwrap();
            if o >= rt.objects.len() {
                proto = None;
            } else {
                match fnv_get(&rt.objects[o].base.values, local_name) {
                    Some(v) => {
                        return Ok(v);
                    },
                    None => {
                        proto = rt.objects[o].base.proto;
                    },
                }
            }
            fuel -= 1;
            assert(rt.lookup_chain(None, local_name, fuel as nat) is None);
        }
        assert(rt.lookup_chain(proto, local_name, fuel as nat) is None);
        if self.sealed {
            Err(failure)
        } else {
            Ok(Value::Undefined)
        }
    }

    /// Whether `name` resolves to a trait of the object. An object without a
    /// property table has no traits.
    pub fn has_trait(&self, name: &Multiname, rt: &Runtime) -> (r: bool)
        requires
            rt.wf(),
            self.vtable matches Some(v) ==> v < rt.vtables@.len(),
        ensures
            r == self.spec_has_trait(name, rt),
    {
        match self.vtable {
            Some(v) => {
                assert(rt.vtables@[v as int].wf());
                rt.vtables[v].has_trait(name)
            },
            None => false,
        }
    }

    pub open spec fn spec_has_trait(&self, name: &Multiname, rt: &Runtime) -> bool {
        match self.vtable {
            Some(v) => resolve(rt.vtables@[v as int]@.traits, name.ns@, name.name).is_some(),
            None => false,
        }
    }

    /// Whether `name` resolves to a trait or to a dynamic property of the
    /// object itself.
    pub fn has_own_property(&self, name: &Multiname, rt: &Runtime) -> (r: bool)
        requires
            rt.wf(),
            self.vtable matches Some(v) ==> v < rt.vtables@.len(),
        ensures
            r == (self.spec_has_trait(name, rt) || match Self::dynamic_name(name) {
                Some(n) => self.values@.contains_key(n),
                None => false,
            }),
    {
        self.has_trait(name, rt) || self.has_own_dynamic_property(name)
    }
}

/// The allocator of plain script objects: puts a new instance of `class` on
/// the heap, without slots yet, and returns it.
pub fn scriptobject_allocator(class: ClassObject, rt: &mut Runtime) -> (r: ObjectId)
    requires
        old(rt).wf(),
        old(rt).has_class(class),
    ensures
        final(rt).wf(),
        r == old(rt).objects@.len(),
        final(rt).objects@.len() == old(rt).objects@.len() + 1,
        forall|i: int| 0 <= i < old(rt).objects@.len() ==> final(rt).objects@[i] == old(rt).objects@[i],
        final(rt).objects@[r as int].kind == crate::runtime::ObjectKind::Script,
        final(rt).objects@[r as int].base.instance_of == Some(class),
        final(rt).objects@[r as int].base.proto == old(rt).classes@[class.0 as int].prototype,
        final(rt).objects@[r as int].base.vtable == Some(old(rt).classes@[class.0 as int].instance_vtable),
        final(rt).objects@[r as int].base.slots@.len() == 0,
        final(rt).objects@[r as int].base.bound_methods@.len() == 0,
        final(rt).objects@[r as int].base.sealed == old(rt).definition_of(class).is_sealed,
        final(rt).objects@[r as int].base.values@ == Map::<Atom, Value>::empty(),
        final(rt).objects@[r as int].base.enumerants@.len() == 0,
        final(rt).interner == old(rt).interner,
        final(rt).classes == old(rt).classes,
        final(rt).vtables == old(rt).vtables,
        final(rt).definitions == old(rt).definitions,
        final(rt).scopes == old(rt).scopes,
        final(rt).call_stack == old(rt).call_stack,
        final(rt).system == old(rt).system,
        final(rt).names == old(rt).names,
{
    let base = ScriptObjectData::new(class, rt);
    rt.allocate_object(base, None)
}

/// A name that was appended to a list without it leaves the list as it was
/// when it is taken out again.
pub proof fn lemma_without_pushed(names: Seq<Atom>, name: Atom)
    requires
        names.no_duplicates(),
        !names.contains(name),
    ensures
        without(names.push(name), name) == names,
{
    let pushed = names.push(name);
    assert(pushed.no_duplicates()) by {
        assert forall|i: int, j: int|
            0 <= i < pushed.len() && 0 <= j < pushed.len() && i != j implies pushed[i]
            != pushed[j] by {
            if i < names.len() {
                assert(names.contains(names[i]));
            }
            if j < names.len() {
                assert(names.contains(names[j]));
            }
        }
    }
    lemma_without(pushed, name);
    assert(pushed[names.len() as int] == name);
    assert(pushed.remove(names.len() as int) =~= names);
}

/// A handle to a plain script object of the runtime.
#[derive(Clone, Copy, Debug, PartialEq, Eq, Structural)]
pub struct ScriptObject(pub ObjectId);

impl ScriptObject {
    /// Puts on the heap an object with the class `class` and the prototype
    /// `proto`, either of which it may lack, and without slots.
    pub fn custom_object(rt: &mut Runtime, class: Option<ClassObject>, proto: Option<ObjectId>) -> (r:
        ObjectId)
        requires
            old(rt).wf(),
            class matches Some(c) ==> old(rt).has_class(c),
            proto matches Some(p) ==> old(rt).has_object(p),
        ensures
            final(rt).wf(),
            r == old(rt).objects@.len(),
            final(rt).grown_from(old(rt)),
            final(rt).objects@.len() == old(rt).objects@.len() + 1,
            final(rt).classes == old(rt).classes,
            final(rt).vtables == old(rt).vtables,
            final(rt).definitions == old(rt).definitions,
            final(rt).scopes == old(rt).scopes,
            final(rt).objects@[r as int].kind == crate::runtime::ObjectKind::Script,
            final(rt).objects@[r as int].base.proto == proto,
            final(rt).objects@[r as int].base.instance_of == class,
            final(rt).objects@[r as int].base.vtable == (match class {
                Some(c) => Some(old(rt).classes@[c.0 as int].instance_vtable),
                None => None,
            }),
            final(rt).objects@[r as int].base.sealed == (match class {
                Some(c) => old(rt).definition_of(c).is_sealed,
                None => false,
            }),
            final(rt).objects@[r as int].base.values@ == Map::<Atom, Value>::empty(),
            final(rt).objects@[r as int].base.slots@.len() == 0,
            final(rt).objects@[r as int].base.enumerants@.len() == 0,
    {
        let (vtable, sealed) = match class {
            Some(c) => {
                proof {
                    assert(rt.class_wf(c.0 as int));
                }
                (
                    Some(rt.classes[c.0].instance_vtable),
                    rt.definitions[rt.classes[c.0].class].is_sealed,
                )
            },
            None => (None, false),
        };
        let base = ScriptObjectData::custom_new(proto, class, vtable, sealed);
        rt.allocate_object(base, None)
    }

    /// Puts on the heap the scope object of a `catch` clause: an object
    /// without a class, whose slot with the id one holds the caught value
    /// under `qname`.
    pub fn catch_scope(rt: &mut Runtime, qname: QName) -> (r: ObjectId)
        requires
            old(rt).wf(),
        ensures
            final(rt).wf(),
            r == old(rt).objects@.len(),
            final(rt).objects@.len() == old(rt).objects@.len() + 1,
            final(rt).vtables@.len() == old(rt).vtables@.len() + 1,
            final(rt).grown_from(old(rt)),
            final(rt).objects@[r as int].base.vtable == Some(old(rt).vtables.len()),
            final(rt).vtables@[old(rt).vtables@.len() as int]@.traits == Map::<
                QName,
                crate::property::Property,
            >::empty().insert(qname, crate::property::Property::Slot { slot_id: 1 }),
            final(rt).objects@[r as int].base.slots@ == seq![Value::Undefined, Value::Undefined],
            final(rt).objects@[r as int].base.instance_of is None,
            final(rt).objects@[r as int].base.proto is None,
    {
        let table = VTable::newcatch(qname);
        let v = rt.vtables.len();
        rt.vtables.push(table);
        let mut base = ScriptObjectData::custom_new(None, None, Some(v), false);
        base.install_instance_slots(&rt.vtables[v]);
        assert(base.slots@ =~= seq![Value::Undefined, Value::Undefined]);
        let id = rt.objects.len();
        rt.objects.push(
            crate::runtime::HeapObject { base, kind: crate::runtime::ObjectKind::Script },
        );
        proof {
            assert(rt.grown_from(old(rt)));
            assert(rt.object_wf(id as int));
            rt.lemma_grown(old(rt));
        }
        id
    }
}

} // verus!
