//! A dependency-injection container: components are registered against the
//! interface they provide, optionally with parameters, and instances are
//! resolved by interface once the container is built.

pub mod component;
pub mod container;
pub mod container_builder;
pub mod erasure;
pub mod error;
pub mod parameter;
pub mod table;

pub use crate::component::Component;
pub use crate::container::Container;
pub use crate::container::RegisteredType;
pub use crate::container_builder::ContainerBuilder;
pub use crate::error::Error;
pub use crate::parameter::Parameter;
pub use crate::parameter::ParameterMap;
