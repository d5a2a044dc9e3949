//! Fail-closed errors of the control plane.
use vstd::prelude::*;

use crate::capsule::CapsuleError;
use crate::text;

verus! {

/// Why a command was refused. No machine advances past a failed gate.
#[derive(Debug)]
pub enum ControlError {
    /// The capsule descriptor could not be read.
    Json(String),
    /// The descriptor has another schema.
    Schema {
        /// Schema that is expected.
        expected: String,
        /// Schema that was found.
        got: String,
    },
    /// The manifest was refused: it is unsigned, or no trusted key signed it.
    Capsule(CapsuleError),
    /// The runtime denied a transition.
    Vm(String),
    /// There is no machine with this id.
    NotFound(String),
    /// The machine is not at a stage for this command.
    InvalidState {
        /// The command.
        action: String,
        /// The machine.
        id: String,
        /// The stage it is at.
        found: String,
        /// The stage that the command needs.
        needed: String,
    },
    /// A machine is destroyed only with explicit confirmation.
    WipeRequired(String),
    /// The receipt chain is broken.
    Receipt(String),
}

impl ControlError {
    /// What is shown of the error.
    pub open spec fn text(self) -> Seq<char> {
        match self {
            ControlError::Json(m) => "malformed control capsule json: "@ + m@,
            ControlError::Schema { expected, got } => "unexpected schema: expected `"@ + expected@
                + "`, got `"@ + got@ + "`"@,
            ControlError::Capsule(e) => "capsule verification failed: "@ + e.text(),
            ControlError::Vm(m) => "lifecycle denied: "@ + m@,
            ControlError::NotFound(id) => "unknown vm id: "@ + id@,
            ControlError::InvalidState { action, id, found, needed } => "invalid state for `"@
                + action@ + "` on `"@ + id@ + "`: vm is `"@ + found@ + "`, need `"@ + needed@
                + "`"@,
            ControlError::WipeRequired(id) => "destroy refused for `"@ + id@
                + "`: pass --wipe to confirm zeroization"@,
            ControlError::Receipt(m) => "receipt chain verification failed: "@ + m@,
        }
    }

    /// What is shown of the error.
    pub fn message(&self) -> (r: String)
        ensures
            r@ == self.text(),
    {
        match self {
            ControlError::Json(m) => text::joined("malformed control capsule json: ", m.as_str()),
            ControlError::Schema { expected, got } => {
                let mut out = "unexpected schema: expected `".to_string();
                out.append(expected.as_str());
                out.append("`, got `");
                out.append(got.as_str());
                out.append("`");
                out
            },
            ControlError::Capsule(e) => text::joined(
                "capsule verification failed: ",
                e.message().as_str(),
            ),
            ControlError::Vm(m) => text::joined("lifecycle denied: ", m.as_str()),
            ControlError::NotFound(id) => text::joined("unknown vm id: ", id.as_str()),
            ControlError::InvalidState { action, id, found, needed } => {
                let mut out = "invalid state for `".to_string();
                out.append(action.as_str());
                out.append("` on `");
                out.append(id.as_str());
                out.append("`: vm is `");
                out.append(found.as_str());
                out.append("`, need `");
                out.append(needed.as_str());
                out.append("`");
                out
            },
            ControlError::WipeRequired(id) => {
                let mut out = "destroy refused for `".to_string();
                out.append(id.as_str());
                out.append("`: pass --wipe to confirm zeroization");
                out
            },
            ControlError::Receipt(m) => text::joined(
                "receipt chain verification failed: ",
                m.as_str(),
            ),
        }
    }
}

} // verus!
