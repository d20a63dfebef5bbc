//! What can go wrong, and the words for it.
use vstd::prelude::*;

use crate::text::{decimal, decimal_spec};

verus! {

/// Why a `cast` was refused. Every rejection is enforced at cast time, never
/// only at display.
#[derive(Clone, Copy, PartialEq, Eq, Structural, Debug)]
pub enum CastRejected {
    StaleVersion { expected: u64, actual: u64 },
    DuplicateIdentity,
    Ineligible,
    AlreadyResolved,
    BadSignature,
}

impl CastRejected {
    /// The words for this refusal.
    pub open spec fn words(self) -> Seq<char> {
        match self {
            CastRejected::StaleVersion { expected, actual } => "stale version: expected "@
                + decimal_spec(expected as nat) + ", hold is at "@ + decimal_spec(actual as nat),
            CastRejected::DuplicateIdentity => "this operator has already cast on this hold"@,
            CastRejected::Ineligible =>
                "operator is not eligible to check this change (independence policy)"@,
            CastRejected::AlreadyResolved => "hold is already resolved"@,
            CastRejected::BadSignature => "verdict signature is invalid for this gate"@,
        }
    }

    pub fn message(&self) -> (r: String)
        ensures
            r@ == self.words(),
    {
        match self {
            CastRejected::StaleVersion { expected, actual } => {
                let e = decimal(*expected);
                let a = decimal(*actual);
                "stale version: expected ".to_owned().concat(e.as_str()).concat(
                    ", hold is at ",
                ).concat(a.as_str())
            },
            CastRejected::DuplicateIdentity => "this operator has already cast on this hold"
                .to_owned(),
            CastRejected::Ineligible =>
                "operator is not eligible to check this change (independence policy)".to_owned(),
            CastRejected::AlreadyResolved => "hold is already resolved".to_owned(),
            CastRejected::BadSignature => "verdict signature is invalid for this gate".to_owned(),
        }
    }
}

/// Failures from the workspace port.
#[derive(PartialEq, Eq, Debug)]
pub enum WorkspaceError {
    Io(String),
    UnknownTask(String),
}

impl Clone for WorkspaceError {
    fn clone(&self) -> (r: Self)
        ensures
            r == *self,
    {
        match self {
            WorkspaceError::Io(s) => WorkspaceError::Io(s.clone()),
            WorkspaceError::UnknownTask(s) => WorkspaceError::UnknownTask(s.clone()),
        }
    }
}

impl WorkspaceError {
    pub open spec fn words(self) -> Seq<char> {
        match self {
            WorkspaceError::Io(s) => "workspace io error: "@ + s@,
            WorkspaceError::UnknownTask(s) => "unknown task: "@ + s@,
        }
    }

    pub fn message(&self) -> (r: String)
        ensures
            r@ == self.words(),
    {
        match self {
            WorkspaceError::Io(s) => "workspace io error: ".to_owned().concat(s.as_str()),
            WorkspaceError::UnknownTask(s) => "unknown task: ".to_owned().concat(s.as_str()),
        }
    }
}

/// Failures from a gate host's operator/agent faces.
#[derive(Clone, PartialEq, Eq, Debug)]
pub enum GateHostError {
    UnknownGate(String),
    Cast(CastRejected),
    Workspace(WorkspaceError),
    /// The session was abandoned: nothing more is taken.
    SessionAbandoned,
}

impl GateHostError {
    pub open spec fn words(self) -> Seq<char> {
        match self {
            GateHostError::UnknownGate(s) => "unknown gate: "@ + s@,
            GateHostError::Cast(e) => "verdict rejected: "@ + e.words(),
            GateHostError::Workspace(e) => e.words(),
            GateHostError::SessionAbandoned => "session abandoned"@,
        }
    }

    pub fn message(&self) -> (r: String)
        ensures
            r@ == self.words(),
    {
        match self {
            GateHostError::UnknownGate(s) => "unknown gate: ".to_owned().concat(s.as_str()),
            GateHostError::Cast(e) => {
                let m = e.message();
                "verdict rejected: ".to_owned().concat(m.as_str())
            },
            GateHostError::Workspace(e) => e.message(),
            GateHostError::SessionAbandoned => "session abandoned".to_owned(),
        }
    }
}

/// Every failure says what it is: what was expected and what was found, which
/// gate, which task, and what the workspace said.
pub proof fn failures_say_what_they_are(
    expected: u64,
    actual: u64,
    name: String,
    cast: CastRejected,
    workspace: WorkspaceError,
)
    ensures
        (CastRejected::StaleVersion { expected, actual }).words() == "stale version: expected "@
            + decimal_spec(expected as nat) + ", hold is at "@ + decimal_spec(actual as nat),
        CastRejected::DuplicateIdentity.words() == "this operator has already cast on this hold"@,
        CastRejected::Ineligible.words()
            == "operator is not eligible to check this change (independence policy)"@,
        CastRejected::AlreadyResolved.words() == "hold is already resolved"@,
        CastRejected::BadSignature.words() == "verdict signature is invalid for this gate"@,
        WorkspaceError::Io(name).words() == "workspace io error: "@ + name@,
        WorkspaceError::UnknownTask(name).words() == "unknown task: "@ + name@,
        GateHostError::UnknownGate(name).words() == "unknown gate: "@ + name@,
        GateHostError::Cast(cast).words() == "verdict rejected: "@ + cast.words(),
        GateHostError::Workspace(workspace).words() == workspace.words(),
        GateHostError::SessionAbandoned.words() == "session abandoned"@,
{
}

} // verus!
