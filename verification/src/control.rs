//! The local control plane: which command is valid for which virtual machine,
//! and what the operator is shown.
//!
//! Everything is local and deny-by-default. The registry knows the stage of
//! each machine; the work of a command is done by a runtime that the caller
//! hands in as a function, which is called only for a command that is open. A
//! refused command leaves the registry as it was, and a failure of the runtime
//! leaves the machine unusable.

pub mod descriptor;
pub mod error;
pub mod laws;
pub mod plane;
pub mod stage;
pub mod views;
