//! Mesh-bundle handles. The library never looks inside a handle: it stores
//! them, copies them and hands them back.

use vstd::prelude::*;

verus! {

/// `bevy::asset::UntypedHandle`, carried through the library as an opaque value.
#[verifier::external_type_specification]
#[verifier::external_body]
pub struct ExUntypedHandle(bevy::asset::UntypedHandle);

/// Calls `UntypedHandle::clone`. The derived clone copies a weak handle's id
/// and shares a strong handle's reference-counted cell, so the copy denotes
/// the same asset; the contract states this as equality with the handle
/// that was copied.
#[verifier::external_body]
pub(crate) fn clone_handle(handle: &bevy::asset::UntypedHandle) -> (copy: bevy::asset::UntypedHandle)
    ensures
        copy == *handle,
{
    handle.clone()
}

/// Copies an optional handle.
pub fn clone_slot(slot: &Option<bevy::asset::UntypedHandle>) -> (copy: Option<
    bevy::asset::UntypedHandle,
>)
    ensures
        copy == *slot,
{
    match slot {
        Some(handle) => Some(clone_handle(handle)),
        None => None,
    }
}

} // verus!
