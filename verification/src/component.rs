//! Components: concrete types that know how to build an instance of the
//! interface they provide.

use vstd::prelude::*;

use crate::container::Container;
use crate::erasure::Erased;
use crate::error::Error;
use crate::parameter::ParameterMap;

verus! {

/// A concrete type that provides one interface. `build` makes an instance
/// from the parameters of its registration, and may resolve what it depends
/// on from the container.
pub trait Component {
    /// The interface that the component provides.
    type Interface: ?Sized + 'static;

    /// Builds an instance.
    fn build(container: &mut Container, params: &mut ParameterMap) -> Result<
        Box<Self::Interface>,
        Error,
    >;
}

/// Takes `C::build` as a function pointer and boxes it with `Box::new`, its
/// type erased. Nothing is claimed of the result.
#[verifier::external_body]
pub(crate) fn builder_of<C: Component>() -> (builder: Erased) {
    let build: fn(&mut Container, &mut ParameterMap) -> Result<Box<C::Interface>, Error> = C::build;
    Erased { inner: Box::new(build) }
}

/// Asks `builder` with `<dyn Any>::downcast_ref` for a build function of the
/// interface `I` and, where it holds one, calls it. `None` says that it holds
/// something else. What the build function does to the container and the
/// parameters, and what it returns, is its own affair: nothing is claimed.
#[verifier::external_body]
pub(crate) fn run_builder<I: ?Sized + 'static>(
    builder: &Erased,
    container: &mut Container,
    params: &mut ParameterMap,
) -> (built: Option<Result<Box<I>, Error>>) {
    match builder.inner.downcast_ref::<fn(&mut Container, &mut ParameterMap) -> Result<Box<I>, Error>>() {
        Some(build) => Some(build(container, params)),
        None => None,
    }
}

} // verus!
