//! A confidential-computing node runtime core: mutually distrusting compute
//! units ("nodes") hosted in one process, communicating only through labeled
//! message channels, with an information-flow-control policy enforced on
//! every channel and node creation.

pub mod channel;
pub mod label;
pub mod node;
pub mod options;
pub mod runtime;
pub mod status;
pub mod wasm;
