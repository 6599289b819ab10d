//! Status codes returned by runtime operations to callers and guest code.

use vstd::prelude::*;

verus! {

/// Outcome of a failed runtime operation.
///
/// - `ErrInvalidArgs`: a malformed module, a missing or mis-typed entrypoint
///   export, or a missing memory export.
/// - `ErrPermissionDenied`: a label check failed on channel creation, node
///   startup, or a channel operation.
/// - `ErrBadHandle`: the operation referenced an unknown, already-revoked, or
///   foreign-owned handle.
/// - `ErrChannelClosed`: a write against a channel whose read side has closed
///   (or whose write side is gone), or a read on a fully drained channel whose
///   write side has closed.
#[derive(Clone, Copy, Debug, PartialEq, Eq, Structural)]
pub enum OakStatus {
    ErrInvalidArgs,
    ErrPermissionDenied,
    ErrBadHandle,
    ErrChannelClosed,
}

} // verus!
