//! Class definitions: what the loader hands over for each class.

use vstd::prelude::*;
use crate::method::Method;
use crate::multiname::Multiname;
use crate::qname::QName;
use crate::traits::Trait;
use crate::value::ClassId;

verus! {

/// How instances of a class come into being.
#[derive(Clone, Copy, Debug, PartialEq, Eq, Structural)]
pub enum Allocator {
    /// The allocator of plain script objects.
    Script,
    /// An allocator of the host, by its number.
    Custom(usize),
}

/// The definition of a class.
#[derive(Debug)]
pub struct Class {
    pub name: QName,
    /// The name of the superclass, if the class has one.
    pub super_class: Option<Multiname>,
    /// Whether instances refuse dynamic properties.
    pub is_sealed: bool,
    /// Whether the class refuses subclasses.
    pub is_final: bool,
    pub is_interface: bool,
    /// Whether type parameters can be applied to the class.
    pub is_generic: bool,
    /// The traits of instances, in the order of their declaration.
    pub instance_traits: Vec<Trait>,
    /// The traits of the class itself, in the order of their declaration.
    pub class_traits: Vec<Trait>,
    /// The declared constructor.
    pub instance_init: Method,
    /// The initializer that the host runs in place of the constructor, if
    /// there is one.
    pub native_instance_init: Option<Method>,
    /// The class initializer.
    pub class_init: Method,
    /// The class's own allocator, if it has one.
    pub instance_allocator: Option<Allocator>,
    /// What a call of the class as a function runs, if not a coercion.
    pub call_handler: Option<Method>,
    /// The names of the interfaces that the class implements directly.
    pub direct_interfaces: Vec<Multiname>,
    /// Whether the class initializer was started. Once set, it stays set.
    pub class_initialized: bool,
    /// The type parameter of a specialization: `Some(None)` for the
    /// parameter `null`, `None` for a class that is no specialization.
    pub param: Option<Option<ClassId>>,
}

impl Class {
    /// A class with the given name, superclass and initializers, and nothing
    /// else: no flag is set and no trait declared.
    pub fn new(
        name: QName,
        super_class: Option<Multiname>,
        instance_init: Method,
        class_init: Method,
    ) -> (r: Class)
        ensures
            r.name == name,
            r.super_class == super_class,
            r.instance_init == instance_init,
            r.class_init == class_init,
            r.native_instance_init is None,
            !r.is_sealed && !r.is_final && !r.is_interface && !r.is_generic,
            r.instance_traits@.len() == 0,
            r.class_traits@.len() == 0,
            r.direct_interfaces@.len() == 0,
            r.instance_allocator is None,
            r.call_handler is None,
            !r.class_initialized,
            r.param is None,
    {
        Class {
            name,
            super_class,
            is_sealed: false,
            is_final: false,
            is_interface: false,
            is_generic: false,
            instance_traits: Vec::new(),
            class_traits: Vec::new(),
            instance_init,
            native_instance_init: None,
            class_init,
            instance_allocator: None,
            call_handler: None,
            direct_interfaces: Vec::new(),
            class_initialized: false,
            param: None,
        }
    }

    /// The class's name.
    pub fn name(&self) -> (r: QName)
        ensures
            r == self.name,
    {
        self.name
    }

    /// Whether instances refuse dynamic properties.
    pub fn is_sealed(&self) -> (r: bool)
        ensures
            r == self.is_sealed,
    {
        self.is_sealed
    }

    /// Whether the class refuses subclasses.
    pub fn is_final(&self) -> (r: bool)
        ensures
            r == self.is_final,
    {
        self.is_final
    }

    /// Whether the class is an interface.
    pub fn is_interface(&self) -> (r: bool)
        ensures
            r == self.is_interface,
    {
        self.is_interface
    }

    /// Whether type parameters can be applied to the class.
    pub fn is_generic(&self) -> (r: bool)
        ensures
            r == self.is_generic,
    {
        self.is_generic
    }

    /// Whether the class initializer was started.
    pub fn is_class_initialized(&self) -> (r: bool)
        ensures
            r == self.class_initialized,
    {
        self.class_initialized
    }

    /// Records that the class initializer was started.
    pub fn mark_class_initialized(&mut self)
        ensures
            *final(self) == (Class { class_initialized: true, ..*old(self) }),
    {
        self.class_initialized = true;
    }

    /// Declares a trait of instances, after those declared so far.
    pub fn define_instance_trait(&mut self, t: Trait)
        ensures
            final(self).instance_traits@ == old(self).instance_traits@.push(t),
            *final(self) == (Class { instance_traits: final(self).instance_traits, ..*old(self) }),
    {
        self.instance_traits.push(t);
    }

    /// Declares a trait of the class itself, after those declared so far.
    pub fn define_class_trait(&mut self, t: Trait)
        ensures
            final(self).class_traits@ == old(self).class_traits@.push(t),
            *final(self) == (Class { class_traits: final(self).class_traits, ..*old(self) }),
    {
        self.class_traits.push(t);
    }

    /// Names an interface that the class implements directly.
    pub fn implements(&mut self, interface: Multiname)
        ensures
            final(self).direct_interfaces@ == old(self).direct_interfaces@.push(interface),
            *final(self) == (Class {
                direct_interfaces: final(self).direct_interfaces,
                ..*old(self)
            }),
    {
        self.direct_interfaces.push(interface);
    }

    /// The initializer that the host runs for a new instance: the native one
    /// where the class has one, or else the declared constructor.
    pub fn native_instance_init(&self) -> (r: Method)
        ensures
            r == self.spec_native_instance_init(),
    {
        match self.native_instance_init {
            Some(m) => m,
            None => self.instance_init,
        }
    }

    pub open spec fn spec_native_instance_init(&self) -> Method {
        match self.native_instance_init {
            Some(m) => m,
            None => self.instance_init,
        }
    }
    /// Whether `self` is the specialization of the definition `base` for the
    /// type parameter `param`: a definition of its own with the traits,
    /// initializers, superclass and interfaces of `base`, which is not
    /// generic itself and whose class initializer was not started.
    pub open spec fn specializes(&self, base: &Class, param: Option<ClassId>) -> bool {
        &&& self.name == base.name
        &&& match (self.super_class, base.super_class) {
            (Some(a), Some(b)) => a.same_as(&b),
            (None, None) => true,
            _ => false,
        }
        &&& self.is_sealed == base.is_sealed
        &&& self.is_final == base.is_final
        &&& self.is_interface == base.is_interface
        &&& !self.is_generic
        &&& self.instance_traits@ == base.instance_traits@
        &&& self.class_traits@ == base.class_traits@
        &&& self.instance_init == base.instance_init
        &&& self.native_instance_init == base.native_instance_init
        &&& self.class_init == base.class_init
        &&& self.instance_allocator == base.instance_allocator
        &&& self.call_handler == base.call_handler
        &&& self.direct_interfaces@.len() == base.direct_interfaces@.len()
        &&& forall|i: int|
            0 <= i < base.direct_interfaces@.len() ==> (#[trigger] self.direct_interfaces@[i]).same_as(
                &base.direct_interfaces@[i],
            )
        &&& !self.class_initialized
        &&& self.param == Some(param)
    }

    /// The definition of the specialization of `base` for the type parameter
    /// `param`.
    pub fn with_type_param(base: &Class, param: Option<ClassId>) -> (r: Class)
        ensures
            r.specializes(base, param),
    {
        let super_class = match &base.super_class {
            Some(name) => Some(name.duplicate()),
            None => None,
        };
        let mut direct_interfaces: Vec<Multiname> = Vec::new();
        let mut i: usize = 0;
        while i < base.direct_interfaces.len()
            invariant
                i <= base.direct_interfaces@.len(),
                direct_interfaces@.len() == i,
                forall|j: int|
                    0 <= j < i ==> (#[trigger] direct_interfaces@[j]).same_as(&base.direct_interfaces@[j]),
            decreases base.direct_interfaces@.len() - i,
        {
            direct_interfaces.push(base.direct_interfaces[i].duplicate());
            i += 1;
        }
        Class {
            name: base.name,
            super_class,
            is_sealed: base.is_sealed,
            is_final: base.is_final,
            is_interface: base.is_interface,
            is_generic: false,
            instance_traits: crate::vtable::copy_vec(&base.instance_traits),
            class_traits: crate::vtable::copy_vec(&base.class_traits),
            instance_init: base.instance_init,
            native_instance_init: base.native_instance_init,
            class_init: base.class_init,
            instance_allocator: base.instance_allocator,
            call_handler: base.call_handler,
            direct_interfaces,
            class_initialized: false,
            param: Some(param),
        }
    }
}

} // verus!
