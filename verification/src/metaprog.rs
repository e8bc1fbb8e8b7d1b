//! Compile-time type comparison.

use vstd::prelude::*;

verus! {

/// Test if the type `T` is the same as `U` (need no value).
///
/// Relies on std's `TypeId::of`: two type identifiers are equal exactly for
/// the same type. Nothing is claimed of the answer here; type identity has
/// no counterpart in specifications.
#[verifier::external_body]
pub fn type_eq<T: ?Sized + 'static, U: ?Sized + 'static>() -> bool {
    std::any::TypeId::of::<T>() == std::any::TypeId::of::<U>()
}

} // verus!
