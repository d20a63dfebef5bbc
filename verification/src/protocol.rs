//! The messages between a session's server and its two stations.
use vstd::prelude::*;

use crate::ids::{GateId, OperatorId};
use crate::sealed::VerdictView;
use crate::verdict::CastVerdict;

verus! {

/// Wire protocol version. Bump on any incompatible change to the message
/// types below. A client that omits the field (pre-versioning build) is read
/// as version 0, which mismatches any real version and is rejected cleanly.
pub const PROTOCOL_VERSION: u32 = 5;

/// Operator role transmitted on the wire.
#[derive(Clone, Copy, PartialEq, Eq, Structural, Debug)]
pub enum WireRole {
    Host,
    Operator,
}

#[allow(inconsistent_fields)]
#[derive(Clone, PartialEq, Debug)]
pub enum ClientMsg {
    Hello {
        seat: String,
        operator: OperatorId,
        /// The client's wire protocol version, 0 when it names none.
        protocol: u32,
    },
    Ready,
    Cast { gate_id: GateId, verdict: CastVerdict },
    HandEdit { path: String, contents: String },
    Abandon,
    Bye,
    /// Toggle a soft presence claim on a gate: "I'm reviewing this one".
    /// Sets the claim to this seat, or clears it if this seat already holds it.
    /// Presence only: never affects verdict eligibility or the four-eyes hold.
    Claim { gate_id: GateId },
    /// Append a note to a gate's discussion thread. Communication only:
    /// visible to both seats, never affects the four-eyes hold.
    Discuss { gate_id: GateId, text: String },
    /// Answer a clarification question. Both seats answer every question; the
    /// exchange resolves (and the agent is unblocked) when all are settled.
    Answer { question: usize, choice: WireChoice },
    /// Application-level keepalive. Never gated.
    Ping,
    SetPrompt { prompt: String },
    /// Live draft of the prompt as a seat types. Valid only during dispatch
    /// composition; updates the shared prompt and resets both ready flags (same
    /// anchoring rule as `SetPrompt`) but is never logged. May be empty
    /// (mid-edit); the dispatch gate refuses an empty prompt anyway.
    PromptDraft { prompt: String },
    /// Request the current on-disk contents of a worktree file.
    FetchFile { path: String },
    /// Replace the current plan with a new task list. Valid only during
    /// plan review; resets both ready flags so both seats must re-consent.
    EditPlan { tasks: Vec<String> },
    /// Send a steer prompt to the agent to revise its plan. Valid only during
    /// plan review; resets both ready flags and withdraws the current plan list.
    SteerPlan { steer: String },
    /// The host's decision on an operator who brings their own key.
    ResolveJoin { operator: OperatorId, approve: bool },
    /// Mark this seat as away from the keyboard, or back.
    SetAfk { afk: bool },
}

#[derive(Clone, PartialEq, Debug)]
pub enum ServerMsg {
    Welcome { seat: String },
    State(Box<WireState>),
    Rejected { reason: String },
    /// Reply to `ClientMsg::FetchFile`. `contents` is `None` when the path
    /// does not exist in the worktree (new file) or the file is binary.
    FileContent { path: String, contents: Option<String> },
    /// Reply to a client `Ping`, so a client can detect a dead host too.
    Pong,
    /// The operator's own key awaits the host's approval.
    AwaitingApproval { fingerprint: String },
}

#[derive(Clone, PartialEq, Debug)]
pub struct WireSeat {
    pub label: String,
    pub operator: OperatorId,
    pub role: WireRole,
    pub linked: bool,
    pub ready: bool,
    pub afk: bool,
}

#[allow(inconsistent_fields)]
#[derive(Clone, PartialEq, Debug)]
pub enum WirePhase {
    AwaitOperators,
    DispatchReady { prompt: String },
    PlanReview { tasks: Vec<String> },
    /// The agent asked the operators to clarify ambiguity before planning.
    Clarify { questions: Vec<WireQuestion> },
    Executing,
    Closed {
        gates: usize,
        chain_verified: bool,
        reviewers: Vec<String>,
        merged: bool,
        abandoned: bool,
    },
}

/// One clarification question projected for the console: the current prompt and
/// options (which change during reconciliation), whether a free-text answer is
/// offered, and each seat's current pick as display text (live to both).
#[derive(Clone, PartialEq, Debug)]
pub struct WireQuestion {
    pub prompt: String,
    pub options: Vec<String>,
    pub allows_custom: bool,
    /// [seat A pick, seat B pick] as display text; None until that seat answers.
    pub picks: [Option<String>; 2],
    /// The resolved answer(s), once this question is settled.
    pub resolved: Option<Vec<String>>,
}

/// A seat's answer to a clarification question.
#[derive(Clone, PartialEq, Debug)]
pub enum WireChoice {
    Option(usize),
    Custom(String),
}

#[derive(PartialEq, Debug)]
pub struct WireFleetCard {
    pub id: String,
    pub status: String,
    pub needs_signoff: bool,
}

impl Clone for WireFleetCard {
    fn clone(&self) -> (r: Self)
        ensures
            r == *self,
    {
        WireFleetCard {
            id: self.id.clone(),
            status: self.status.clone(),
            needs_signoff: self.needs_signoff,
        }
    }
}

/// Wire representation of a gate.
/// The `keys` field holds `VerdictView`s which are sealing-safe by construction:
/// a sealed verdict carries only the operator identity and status (Sealed),
/// never the actual Go/NoGo choice.
#[derive(Clone, PartialEq, Debug)]
pub struct WireGate {
    pub gate_id: GateId,
    pub task: String,
    pub files: Vec<String>,
    pub loc: u32,
    pub diff_hash: crate::ids::Hash,
    pub keys: Vec<VerdictView>,
    pub escalation_required: bool,
    /// The diff under review, split per file, each section independently capped at
    /// 64 KiB: one huge generated file cannot starve the others' diffs.
    pub file_diffs: Vec<WireFileDiff>,
    /// True when any file's section was capped. Operators who approve a
    /// truncated diff must explicitly acknowledge before their `go` is cast.
    pub diff_truncated: bool,
    /// The task's most recent command and its exit code: the closest thing
    /// to a test result the review surface can show truthfully.
    pub last_cmd: Option<WireCmd>,
    /// The agent that produced the change.
    pub agent: String,
    /// Seat label of the operator currently reviewing this gate, if claimed.
    /// A soft presence signal, not a lock.
    pub claimed_by: Option<String>,
    /// Gate-anchored discussion notes, in order. Communication only.
    pub discuss: Vec<WireComment>,
}

/// One note in a gate's discussion thread.
#[derive(Clone, PartialEq, Debug)]
pub struct WireComment {
    pub who: String,
    pub text: String,
}

/// A completed command and its outcome.
#[derive(PartialEq, Debug)]
pub struct WireCmd {
    pub command: String,
    pub exit_code: i32,
}

impl Clone for WireCmd {
    fn clone(&self) -> (r: Self)
        ensures
            r == *self,
    {
        WireCmd { command: self.command.clone(), exit_code: self.exit_code }
    }
}

/// One file's diff section at a gate.
#[derive(Clone, PartialEq, Debug)]
pub struct WireFileDiff {
    pub path: String,
    pub diff: String,
    /// True when this section was capped at 64 KiB on the server.
    pub truncated: bool,
}

/// An operator's own key that awaits the host's approval.
#[derive(Clone, PartialEq, Debug)]
pub struct WirePendingJoin {
    pub operator: OperatorId,
    pub fingerprint: String,
}

#[derive(Clone, PartialEq, Debug)]
pub struct WireState {
    pub phase: WirePhase,
    pub seats: Vec<WireSeat>,
    pub fleet: Vec<WireFleetCard>,
    pub log: Vec<String>,
    pub gate: Option<WireGate>,
    /// The session instruction, carried in every phase so it stays visible
    /// after dispatch, not only while it is being composed.
    pub prompt: String,
    pub pending_join: Option<WirePendingJoin>,
}

} // verus!
