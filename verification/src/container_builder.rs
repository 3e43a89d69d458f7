//! The builder that collects registrations and turns them into a container.

use std::any::TypeId;
use vstd::prelude::*;

use crate::component::Component;
use crate::container::Container;
use crate::container::RegisteredType;
use crate::container::Registry;
use crate::erasure::type_id_of;
use crate::error::Error;
use crate::parameter::KeyId;
use crate::parameter::Parameter;
use crate::table::Table;

verus! {

/// Of two components registered for one interface only the second is left:
/// the registrations are those that the second alone would have given.
pub proof fn law_last_registration_wins(
    registry: Map<TypeId, RegisteredType>,
    interface: TypeId,
    first: RegisteredType,
    second: RegisteredType,
)
    ensures
        registry.insert(interface, first).insert(interface, second) == registry.insert(
            interface,
            second,
        ),
        registry.insert(interface, first).insert(interface, second)[interface] == second,
{
    assert(registry.insert(interface, first).insert(interface, second) =~= registry.insert(
        interface,
        second,
    ));
}

/// Collects registrations, one for each interface, until `build` turns them
/// into a container.
pub struct ContainerBuilder {
    registry: Registry,
}

impl Default for ContainerBuilder {
    fn default() -> (builder: Self)
        ensures
            builder@ == Map::<TypeId, RegisteredType>::empty(),
    {
        ContainerBuilder { registry: Table::new() }
    }
}

impl ContainerBuilder {
    /// The registrations so far, by the identity of the interface.
    pub closed spec fn view(&self) -> Map<TypeId, RegisteredType> {
        self.registry@
    }

    /// A builder without registrations.
    pub fn new() -> (builder: Self)
        ensures
            builder@ == Map::<TypeId, RegisteredType>::empty(),
    {
        ContainerBuilder { registry: Table::new() }
    }

    /// The registration for the interface `interface`, if there is one.
    pub fn registered(&self, interface: &TypeId) -> (r: Option<&RegisteredType>)
        ensures
            match r {
                Some(registered) => self@.contains_key(*interface) && *registered
                    == self@[*interface],
                None => !self@.contains_key(*interface),
            },
    {
        self.registry.get(interface)
    }

    /// The registration for the interface `I`, if there is one.
    pub fn registered_for<I: ?Sized + 'static>(&self) -> (r: Option<&RegisteredType>)
        ensures
            exists|interface: TypeId|
                match r {
                    Some(registered) => #[trigger] self@.contains_key(interface) && *registered
                        == self@[interface],
                    None => !self@.contains_key(interface),
                },
    {
        self.registered(&type_id_of::<I>())
    }

    /// Registers `registered` for the interface `interface`, in place of what
    /// was registered for it, and hands it out to be given its parameters.
    pub fn register(&mut self, interface: TypeId, registered: RegisteredType) -> (r:
        &mut RegisteredType)
        ensures
            *r == registered,
            final(self)@ == old(self)@.insert(interface, *final(r)),
    {
        self.registry.insert(interface, registered);
        let r = self.registry.get_mut(&interface);
        r.unwrap()
    }

    /// Registers the component `C`, under the name `component`, for the
    /// interface that it provides. A component registered for that interface
    /// before is replaced, parameters and all. The registration is handed out
    /// to be given its parameters.
    pub fn register_type<C: Component>(&mut self, component: &str) -> (r: &mut RegisteredType)
        ensures
            r.component() == component@,
            r.parameters() == Map::<KeyId, Parameter>::empty(),
            exists|interface: TypeId|
                final(self)@ == #[trigger] old(self)@.insert(interface, *final(r)),
    {
        let interface = type_id_of::<C::Interface>();
        self.register(interface, RegisteredType::new::<C>(component))
    }

    /// Turns the builder into a container that holds its registrations. This
    /// cannot fail.
    pub fn build(self) -> (r: Result<Container, Error>)
        ensures
            (r matches Ok(container) && container@ == self@),
    {
        Ok(Container::new(self.registry))
    }
}

} // verus!
