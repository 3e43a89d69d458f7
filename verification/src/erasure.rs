//! The boundary to `std::any`: type identities and values whose type has been
//! erased. The calls into the standard library are made here, and what is
//! stated of them is taken on trust; the rest of the crate is verified
//! against it.

use std::any::Any;
use std::any::TypeId;
use vstd::prelude::*;

use crate::table::Identity;

verus! {

/// `std::any::TypeId`, carried as an opaque value. Nothing is known of what an
/// identity holds; two identities are either equal or not.
#[verifier::external_type_specification]
#[verifier::external_body]
pub struct ExTypeId(TypeId);

/// A value of some `'static` type held as `Box<dyn Any>`. The verifier sees
/// nothing inside it: which type it holds is only learned by asking for that
/// type back.
#[verifier::external_body]
#[derive(Debug)]
pub struct Erased {
    pub(crate) inner: Box<dyn Any>,
}

/// Calls `TypeId::of::<T>()`. Nothing is claimed of the identity returned.
#[verifier::external_body]
pub(crate) fn type_id_of<T: ?Sized + 'static>() -> (id: TypeId) {
    TypeId::of::<T>()
}

/// Compares two identities with `TypeId`'s `==`: the answer is `true` exactly
/// when they are the same identity.
#[verifier::external_body]
pub(crate) fn same_type(a: &TypeId, b: &TypeId) -> (r: bool)
    ensures
        r == (*a == *b),
{
    a == b
}

/// A type identity is its own identity as a key.
impl Identity for TypeId {
    type Id = TypeId;

    open spec fn id(&self) -> TypeId {
        *self
    }

    fn same(&self, other: &Self) -> (r: bool) {
        same_type(self, other)
    }
}

/// Boxes `value` with `Box::new` and forgets its type. Nothing is claimed of
/// the erased value.
#[verifier::external_body]
pub(crate) fn erase<V: 'static>(value: V) -> (erased: Erased) {
    Erased { inner: Box::new(value) }
}

/// Calls `Box<dyn Any>::downcast::<V>()` and takes a value that comes out of
/// its box. Where the box does not hold a `V`, the standard library hands the
/// box back as it was, and that is what is claimed. Of a value that does come
/// out, nothing is stated.
#[verifier::external_body]
pub(crate) fn downcast<V: 'static>(erased: Erased) -> (r: Result<V, Erased>)
    ensures
        r matches Err(back) ==> back == erased,
{
    match erased.inner.downcast::<V>() {
        Ok(typed) => Ok(*typed),
        Err(inner) => Err(Erased { inner }),
    }
}

} // verus!
