//! Shared ownership of a pooled object: the three operations of
//! `std::sync::Arc` that a handle needs beyond `Arc::new`.
//!
//! The value of an `Arc<T>` is the `T` it points to. How many pointers share
//! the allocation is no part of that value, so the two functions whose
//! answer depends on it say what holds of either answer and leave open
//! which one comes. Each function makes one call into std.

use vstd::prelude::*;
use std::sync::Arc;

verus! {

/// `Arc::clone`: another pointer to the same allocation, so to the same
/// object.
#[verifier::external_body]
pub(crate) fn share<T>(shared: &Arc<T>) -> (twin: Arc<T>)
    ensures
        twin == *shared,
{
    Arc::clone(shared)
}

/// `Arc::get_mut`: mutable access to the object if no other pointer to the
/// allocation exists, `None` otherwise. With `Some`, the reference starts at
/// the object and what is written through it is what the `Arc` holds
/// afterwards; with `None` the `Arc` is as it was. The call never panics.
#[verifier::external_body]
pub(crate) fn exclusive<T>(shared: &mut Arc<T>) -> (access: Option<&mut T>)
    ensures
        access matches Some(inner) ==> *inner == **old(shared) && **final(shared) == *final(inner),
        access is None ==> *final(shared) == *old(shared),
    no_unwind
{
    Arc::get_mut(shared)
}

/// `Arc::into_inner`: the object itself if this was the last strong
/// pointer to the allocation; otherwise nothing, and the pointer is given
/// up. Of all the pointers to one allocation that end here, exactly one
/// gets the object.
#[verifier::external_body]
pub(crate) fn unwrap_sole<T>(shared: Arc<T>) -> (outcome: Option<T>)
    ensures
        outcome matches Some(object) ==> object == *shared,
{
    Arc::into_inner(shared)
}

} // verus!
