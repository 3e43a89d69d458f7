//! Registrations and the container that resolves them.

use std::any::TypeId;
use vstd::prelude::*;

use crate::component::builder_of;
use crate::component::run_builder;
use crate::component::Component;
use crate::erasure::type_id_of;
use crate::erasure::Erased;
use crate::error::Error;
use crate::parameter::stored;
use crate::parameter::unnamed;
use crate::parameter::KeyId;
use crate::parameter::Parameter;
use crate::parameter::ParameterMap;
use crate::table::Table;

verus! {

/// One registration: the component that provides an interface, by name, how
/// to build it, and the parameters to build it with.
pub struct RegisteredType {
    component: String,
    builder: Erased,
    parameters: ParameterMap,
}

/// The registrations of a container, by the identity of the interface.
pub type Registry = Table<TypeId, RegisteredType>;

impl RegisteredType {
    /// The name of the component.
    pub closed spec fn component(&self) -> Seq<char> {
        self.component@
    }

    /// The build function, its type erased.
    pub closed spec fn builder(&self) -> Erased {
        self.builder
    }

    /// The parameters, by key.
    pub closed spec fn parameters(&self) -> Map<KeyId, Parameter> {
        self.parameters@
    }

    /// A registration of the component `C` under the name `component`, with
    /// no parameters yet.
    pub fn new<C: Component>(component: &str) -> (registered: Self)
        ensures
            registered.component() == component@,
            registered.parameters() == Map::<KeyId, Parameter>::empty(),
    {
        RegisteredType {
            component: component.to_string(),
            builder: builder_of::<C>(),
            parameters: ParameterMap::new(),
        }
    }

    /// The name of the component.
    pub fn component_name(&self) -> (name: &String)
        ensures
            name@ == self.component(),
    {
        &self.component
    }

    /// Stores `value` under `name` for the component to be built with, in
    /// place of what was stored under that name.
    pub fn with_named_parameter<V: 'static>(&mut self, name: &str, value: V) -> (registered:
        &mut Self)
        ensures
            *final(self) == *final(registered),
            registered.component() == old(self).component(),
            registered.builder() == old(self).builder(),
            stored(old(self).parameters(), registered.parameters(), KeyId::Name(name@)),
            registered.parameters()[KeyId::Name(name@)].name() == name@,
    {
        self.parameters.insert_with_name(name, value);
        self
    }

    /// Stores `value` under its type for the component to be built with, in
    /// place of what was stored under that type.
    pub fn with_typed_parameter<V: 'static>(&mut self, value: V) -> (registered: &mut Self)
        ensures
            *final(self) == *final(registered),
            registered.component() == old(self).component(),
            registered.builder() == old(self).builder(),
            exists|type_id: TypeId|
                {
                    &&& #[trigger] stored(
                        old(self).parameters(),
                        registered.parameters(),
                        KeyId::Id(type_id),
                    )
                    &&& registered.parameters()[KeyId::Id(type_id)].type_id() == type_id
                    &&& registered.parameters()[KeyId::Id(type_id)].name() == unnamed()
                },
    {
        self.parameters.insert_with_type(value);
        proof {
            let before = old(self).parameters();
            let after = self.parameters@;
            let type_id = choose|type_id: TypeId|
                {
                    &&& #[trigger] stored(before, after, KeyId::Id(type_id))
                    &&& after[KeyId::Id(type_id)].type_id() == type_id
                    &&& after[KeyId::Id(type_id)].name() == unnamed()
                };
            assert(stored(old(self).parameters(), self.parameters(), KeyId::Id(type_id)));
        }
        self
    }
}

/// What resolving the interface registered under `interface` does and gives.
/// Without a registration the outcome is the error that names the identity,
/// and the registrations stay as they were. With one, the build decides the
/// outcome; the component is still registered afterwards, under its name and
/// with its build function.
pub open spec fn resolution<I: ?Sized>(
    before: Map<TypeId, RegisteredType>,
    after: Map<TypeId, RegisteredType>,
    interface: TypeId,
    outcome: Result<Box<I>, Error>,
) -> bool {
    if before.contains_key(interface) {
        &&& after.contains_key(interface)
        &&& after[interface].component() == before[interface].component()
        &&& after[interface].builder() == before[interface].builder()
    } else {
        &&& outcome == Err::<Box<I>, Error>(Error::NotRegistered(interface))
        &&& after == before
    }
}

/// What a resolution hands out once the build function has been asked: what
/// the build returned or, where the function found was not one for the
/// interface (`None`), the error that names the identity.
pub fn outcome_of_build<I: ?Sized + 'static>(
    interface: TypeId,
    built: Option<Result<Box<I>, Error>>,
) -> (r: Result<Box<I>, Error>)
    ensures
        r == (match built {
            Some(outcome) => outcome,
            None => Err::<Box<I>, Error>(Error::NotRegistered(interface)),
        }),
{
    match built {
        Some(outcome) => outcome,
        None => Err(Error::NotRegistered(interface)),
    }
}

/// Resolving one interface twice in a row asks the same registration both
/// times. Where nothing is registered, both resolutions give the error that
/// names the identity and leave the registrations alone. Where a component is
/// registered, it is the same component with the same build function at the
/// second resolution as at the first; what the two builds return is for the
/// component to say.
pub proof fn law_resolving_twice<I: ?Sized>(
    before: Map<TypeId, RegisteredType>,
    between: Map<TypeId, RegisteredType>,
    after: Map<TypeId, RegisteredType>,
    interface: TypeId,
    first: Result<Box<I>, Error>,
    second: Result<Box<I>, Error>,
)
    requires
        resolution(before, between, interface, first),
        resolution(between, after, interface, second),
    ensures
        !before.contains_key(interface) ==> {
            &&& first == Err::<Box<I>, Error>(Error::NotRegistered(interface))
            &&& second == first
            &&& after == before
        },
        before.contains_key(interface) ==> {
            &&& between.contains_key(interface)
            &&& after.contains_key(interface)
            &&& between[interface].builder() == before[interface].builder()
            &&& after[interface].builder() == before[interface].builder()
            &&& between[interface].component() == before[interface].component()
            &&& after[interface].component() == before[interface].component()
        },
{
}

/// The registrations of a finished builder, from which instances are
/// resolved.
pub struct Container {
    registry: Registry,
}

impl Container {
    /// The registrations, by the identity of the interface.
    pub closed spec fn view(&self) -> Map<TypeId, RegisteredType> {
        self.registry@
    }

    /// A container over `registry`.
    pub(crate) fn new(registry: Registry) -> (container: Self)
        ensures
            container@ == registry@,
    {
        Container { registry }
    }

    /// Whether a component is registered for the interface `interface`.
    pub fn is_registered(&self, interface: &TypeId) -> (r: bool)
        ensures
            r == self@.contains_key(*interface),
    {
        self.registry.contains(interface)
    }

    /// Resolves the interface `I`, registered under the identity
    /// `interface`. Without a registration the container stays as it is and
    /// the error names the identity. With one, the registration is set aside
    /// while its component is built, so that a component which depends on
    /// itself finds itself not registered, and is put back afterwards with
    /// the parameters that the build left. A registration whose component
    /// provides another interface than `I` counts as none.
    pub fn resolve_as<I: ?Sized + 'static>(&mut self, interface: TypeId) -> (r: Result<
        Box<I>,
        Error,
    >)
        ensures
            resolution(old(self)@, final(self)@, interface, r),
    {
        match self.registry.remove(&interface) {
            None => {
                assert(self@ =~= old(self)@);
                Err(Error::NotRegistered(interface))
            },
            Some(registered) => {
                let mut registered = registered;
                let built = run_builder::<I>(&registered.builder, self, &mut registered.parameters);
                self.registry.insert(interface, registered);
                outcome_of_build(interface, built)
            },
        }
    }

    /// Builds an instance of the interface `I` with the component registered
    /// for it. Where none is registered the container stays as it is and the
    /// error says so; where one is, it is still registered afterwards, under
    /// the same name.
    pub fn resolve<I: ?Sized + 'static>(&mut self) -> (r: Result<Box<I>, Error>)
        ensures
            exists|interface: TypeId| #[trigger] resolution(old(self)@, final(self)@, interface, r),
            old(self)@ == Map::<TypeId, RegisteredType>::empty() ==> (r matches Err(
                Error::NotRegistered(_),
            )) && final(self)@ == old(self)@,
    {
        self.resolve_as::<I>(type_id_of::<I>())
    }
}

} // verus!
