//! Node instances and their lifecycle.
//!
//! Node kinds form a closed set of variants behind one polymorphic
//! capability: every kind can be validated before it runs. A node instance
//! never leaves a terminal state.

use vstd::prelude::*;

use crate::status::OakStatus;
use crate::wasm::WasmNode;

verus! {

/// The lifecycle of a registered node instance. `Running` means an isolated
/// execution context has been admitted for it; `FailedToStart` means
/// validation refused it and no execution context was ever spawned;
/// `Terminated` is a runtime-initiated stop; `Completed` and `Trapped` are
/// the guest's own endings. No transition leaves a terminal state
/// (everything but `Running` is terminal).
#[derive(Clone, Copy, Debug, PartialEq, Eq, Structural)]
pub enum NodeState {
    Running,
    Terminated,
    FailedToStart,
    Completed,
    Trapped,
}

/// A node instance: the closed set of node kinds the runtime can host.
pub enum NodeInstance {
    Wasm(WasmNode),
}

impl NodeInstance {
    /// The instance passes its structural validation.
    pub open spec fn spec_valid(self) -> bool {
        match self {
            NodeInstance::Wasm(w) => w.spec_valid(),
        }
    }

    /// Validates the instance without running any of its code.
    pub fn validate(&self) -> (r: Result<(), OakStatus>)
        ensures
            r is Ok <==> self.spec_valid(),
            r matches Err(st) ==> st == OakStatus::ErrInvalidArgs,
    {
        match self {
            NodeInstance::Wasm(w) => w.validate(),
        }
    }
}

} // verus!
