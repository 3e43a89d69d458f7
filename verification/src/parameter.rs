//! Parameters: values of any type, stored under a name or under their type
//! and handed back only to a caller who asks for the type they were stored
//! with.

use std::any::TypeId;
use vstd::prelude::*;

use crate::erasure::downcast;
use crate::erasure::erase;
use crate::erasure::same_type;
use crate::erasure::type_id_of;
use crate::erasure::Erased;
use crate::table::Identity;
use crate::table::Table;

verus! {

/// The name under which values are stored by type alone.
pub open spec fn unnamed() -> Seq<char> {
    "(dummy name)"@
}

/// What a parameter is stored under: a name, or the identity of a type.
#[derive(Debug)]
pub enum Key {
    Name(String),
    Id(TypeId),
}

/// A key as contracts speak of it.
pub ghost enum KeyId {
    Name(Seq<char>),
    Id(TypeId),
}

impl Identity for Key {
    type Id = KeyId;

    open spec fn id(&self) -> KeyId {
        match self {
            Key::Name(name) => KeyId::Name(name@),
            Key::Id(type_id) => KeyId::Id(*type_id),
        }
    }

    fn same(&self, other: &Self) -> (r: bool) {
        match (self, other) {
            (Key::Name(a), Key::Name(b)) => *a == *b,
            (Key::Id(a), Key::Id(b)) => same_type(a, b),
            _ => false,
        }
    }
}

/// One stored value: its name, the identity of the type it was stored with,
/// and the value itself with its type erased.
#[derive(Debug)]
pub struct Parameter {
    name: String,
    type_id: TypeId,
    value: Erased,
}

impl Parameter {
    /// The declared name.
    pub closed spec fn name(&self) -> Seq<char> {
        self.name@
    }

    /// The identity of the type the value was stored with.
    pub closed spec fn type_id(&self) -> TypeId {
        self.type_id
    }

    /// The stored value, its type erased.
    pub closed spec fn value(&self) -> Erased {
        self.value
    }

    /// Puts a parameter together from its parts.
    pub(crate) fn assemble(name: String, type_id: TypeId, value: Erased) -> (parameter: Parameter)
        ensures
            parameter.name() == name@,
            parameter.type_id() == type_id,
            parameter.value() == value,
    {
        Parameter { name, type_id, value }
    }

    /// A parameter called `name` that holds `value`.
    pub fn new<V: 'static>(name: &str, value: V) -> (parameter: Parameter)
        ensures
            parameter.name() == name@,
    {
        Parameter::assemble(name.to_string(), type_id_of::<V>(), erase(value))
    }

    /// Whether the parameter was stored with the type that `type_id` stands
    /// for.
    pub fn is_of(&self, type_id: &TypeId) -> (r: bool)
        ensures
            r == (self.type_id() == *type_id),
    {
        same_type(&self.type_id, type_id)
    }

    /// The stored value as a `V`, where it is one; where it is not, the
    /// parameter comes back as it was. Whether it is one is for the standard
    /// library's downcast to say.
    pub fn into_value<V: 'static>(self) -> (r: Result<V, Parameter>)
        ensures
            r matches Err(back) ==> back == self,
    {
        match downcast::<V>(self.value) {
            Ok(value) => Ok(value),
            Err(value) => Err(Parameter { name: self.name, type_id: self.type_id, value }),
        }
    }

    /// The stored value as a `V`, where it is one. Whether it is one is for
    /// the standard library's downcast to say, so nothing is promised of the
    /// outcome here; `ParameterMap::remove` decides by the stored identity
    /// which parameter is handed out at all.
    pub fn get_value<V: 'static>(self) -> (value: Option<V>) {
        self.into_value::<V>().ok()
    }
}

/// Whether `key` is bound in `map` to a parameter stored with the type that
/// `type_id` stands for.
pub open spec fn bound_as(map: Map<KeyId, Parameter>, key: KeyId, type_id: TypeId) -> bool {
    map.contains_key(key) && map[key].type_id() == type_id
}

/// What removing `key` as a value of the type `type_id` leaves of `map`, and
/// what it hands out: the parameter leaves only when its type is the one
/// asked for.
pub open spec fn removal(map: Map<KeyId, Parameter>, key: KeyId, type_id: TypeId) -> (
    Map<KeyId, Parameter>,
    Option<Parameter>,
) {
    if bound_as(map, key, type_id) {
        (map.remove(key), Some(map[key]))
    } else {
        (map, None)
    }
}

/// A parameter that was stored comes back as it was when it is removed as a
/// value of the type it was stored with, and its key is free again.
pub proof fn law_stored_parameter_comes_back(
    map: Map<KeyId, Parameter>,
    key: KeyId,
    parameter: Parameter,
)
    ensures
        removal(map.insert(key, parameter), key, parameter.type_id()) == (
            map.remove(key),
            Some(parameter),
        ),
{
    assert(map.insert(key, parameter).remove(key) =~= map.remove(key));
}

/// Removing a stored parameter as a value of another type hands out nothing
/// and leaves the parameter where it is.
pub proof fn law_other_type_finds_nothing(
    map: Map<KeyId, Parameter>,
    key: KeyId,
    parameter: Parameter,
    type_id: TypeId,
)
    requires
        type_id != parameter.type_id(),
    ensures
        removal(map.insert(key, parameter), key, type_id) == (
            map.insert(key, parameter),
            None::<Parameter>,
        ),
{
}

/// Storing twice under one key hands the first parameter back at the second
/// time and leaves only the second: it is what a removal finds, and the first
/// cannot be had again, whatever the two types were.
pub proof fn law_second_parameter_replaces_first(
    map: Map<KeyId, Parameter>,
    key: KeyId,
    first: Parameter,
    second: Parameter,
)
    ensures
        map.insert(key, first).get(key) == Some(first),
        map.insert(key, first).insert(key, second) == map.insert(key, second),
        removal(map.insert(key, first).insert(key, second), key, second.type_id()) == (
            map.remove(key),
            Some(second),
        ),
        forall|type_id: TypeId|
            (#[trigger] removal(map.insert(key, first).insert(key, second), key, type_id)).1
                != Some(first) || first == second,
{
    assert(map.insert(key, first).insert(key, second) =~= map.insert(key, second));
    assert(map.insert(key, second).remove(key) =~= map.remove(key));
}

/// Whether `after` is `before` with one parameter stored under `key`, in place
/// of what was there.
pub open spec fn stored(
    before: Map<KeyId, Parameter>,
    after: Map<KeyId, Parameter>,
    key: KeyId,
) -> bool {
    after.contains_key(key) && after == before.insert(key, after[key])
}

/// The parameters of one registration, each under its name or its type.
#[derive(Debug)]
pub struct ParameterMap {
    table: Table<Key, Parameter>,
}

impl ParameterMap {
    /// The stored parameters, by key.
    pub closed spec fn view(&self) -> Map<KeyId, Parameter> {
        self.table@
    }

    /// An empty store.
    pub fn new() -> (map: Self)
        ensures
            map@ == Map::<KeyId, Parameter>::empty(),
    {
        ParameterMap { table: Table::new() }
    }

    /// Stores `parameter` under `key`, in place of what was there, and hands
    /// back what was there.
    pub fn insert(&mut self, key: Key, parameter: Parameter) -> (previous: Option<Parameter>)
        ensures
            final(self)@ == old(self)@.insert(key.id(), parameter),
            previous == old(self)@.get(key.id()),
    {
        self.table.insert(key, parameter)
    }

    /// Takes out the parameter under `key` if it was stored with the type
    /// that `type_id` stands for; a parameter of another type stays.
    pub fn remove(&mut self, key: &Key, type_id: &TypeId) -> (removed: Option<Parameter>)
        ensures
            (final(self)@, removed) == removal(old(self)@, key.id(), *type_id),
    {
        let matches = match self.table.get(key) {
            Some(parameter) => parameter.is_of(type_id),
            None => false,
        };
        if matches {
            self.table.remove(key)
        } else {
            None
        }
    }

    /// Stores `value` under the name `key`. If a value of the same type was
    /// stored under that name, it is handed back.
    pub fn insert_with_name<V: 'static>(&mut self, key: &str, value: V) -> (previous: Option<V>)
        ensures
            stored(old(self)@, final(self)@, KeyId::Name(key@)),
            final(self)@[KeyId::Name(key@)].name() == key@,
            previous is Some ==> old(self)@.contains_key(KeyId::Name(key@)),
    {
        let parameter = Parameter::new(key, value);
        match self.insert(Key::Name(key.to_string()), parameter) {
            Some(old_parameter) => old_parameter.get_value::<V>(),
            None => None,
        }
    }

    /// Stores `value` under its type. If a value of that type was stored this
    /// way, it is handed back.
    pub fn insert_with_type<V: 'static>(&mut self, value: V) -> (previous: Option<V>)
        ensures
            exists|type_id: TypeId|
                {
                    &&& #[trigger] stored(old(self)@, final(self)@, KeyId::Id(type_id))
                    &&& final(self)@[KeyId::Id(type_id)].type_id() == type_id
                    &&& final(self)@[KeyId::Id(type_id)].name() == unnamed()
                    &&& previous is Some ==> old(self)@.contains_key(KeyId::Id(type_id))
                },
    {
        let type_id = type_id_of::<V>();
        let parameter = Parameter::assemble("(dummy name)".to_string(), type_id, erase(value));
        let previous = match self.insert(Key::Id(type_id), parameter) {
            Some(old_parameter) => old_parameter.get_value::<V>(),
            None => None,
        };
        assert(stored(old(self)@, self@, KeyId::Id(type_id)));
        previous
    }

    /// Takes out the value stored under the name `key`, if it was stored as a
    /// `V`. A value of another type stays where it is: when nothing is handed
    /// out, nothing has changed.
    pub fn remove_with_name<V: 'static>(&mut self, key: &str) -> (value: Option<V>)
        ensures
            match value {
                Some(_) => old(self)@.contains_key(KeyId::Name(key@)) && final(self)@ == old(
                    self,
                )@.remove(KeyId::Name(key@)),
                None => final(self)@ == old(self)@,
            },
    {
        let type_id = type_id_of::<V>();
        let name = Key::Name(key.to_string());
        match self.remove(&name, &type_id) {
            Some(parameter) => match parameter.into_value::<V>() {
                Ok(value) => Some(value),
                Err(parameter) => {
                    self.insert(name, parameter);
                    assert(self@ =~= old(self)@);
                    None
                },
            },
            None => None,
        }
    }

    /// Takes out the value stored under the type `V`, if there is one. When
    /// nothing is handed out, nothing has changed.
    pub fn remove_with_type<V: 'static>(&mut self) -> (value: Option<V>)
        ensures
            match value {
                Some(_) => exists|type_id: TypeId|
                    {
                        &&& #[trigger] bound_as(old(self)@, KeyId::Id(type_id), type_id)
                        &&& final(self)@ == old(self)@.remove(KeyId::Id(type_id))
                    },
                None => final(self)@ == old(self)@,
            },
    {
        let type_id = type_id_of::<V>();
        match self.remove(&Key::Id(type_id), &type_id) {
            Some(parameter) => match parameter.into_value::<V>() {
                Ok(value) => {
                    assert(bound_as(old(self)@, KeyId::Id(type_id), type_id));
                    Some(value)
                },
                Err(parameter) => {
                    self.insert(Key::Id(type_id), parameter);
                    assert(self@ =~= old(self)@);
                    None
                },
            },
            None => None,
        }
    }
}

} // verus!
