//! What resolving a component can fail with.

use std::any::TypeId;
use vstd::prelude::*;
use vstd::string::StringExecFns;

verus! {

/// Why no instance could be handed out.
#[derive(Debug)]
pub enum Error {
    /// No component is registered for the interface with this identity.
    NotRegistered(TypeId),
    /// A component was found but could not be built; the text says why.
    ResolveError(String),
}

impl Error {
    /// The text of the error, as contracts speak of it.
    pub open spec fn text(&self) -> Seq<char> {
        match self {
            Error::NotRegistered(_) => "no component registered for this interface"@,
            Error::ResolveError(reason) => "unable to resolve component: "@ + reason@,
        }
    }

    /// The text of the error.
    pub fn message(&self) -> (text: String)
        ensures
            text@ == self.text(),
    {
        match self {
            Error::NotRegistered(_) => String::from_str("no component registered for this interface"),
            Error::ResolveError(reason) => {
                String::from_str("unable to resolve component: ").concat(reason.as_str())
            },
        }
    }
}

} // verus!
