//! Four-eyes review: every change that an agent makes waits at a gate until two
//! operators have each cast a signed verdict on it, and the session leaves a
//! signed, hash-chained audit trail.
//!
//! The layers, from the inside out:
//!
//! - identities, verdicts and policy: `ids`, `policy`, `eligibility`, `verdict`,
//!   `sealed`, `sign`, `canonical`;
//! - one gate: `hold`, the two-key state machine;
//! - the trail: `audit`, its records and the chain that links them;
//! - one session: `gatehost`, its gates, plan, questions and worktree behind the
//!   `workspace` port, with `provenance`, `session`, `worktree` and `fleet`;
//! - the agent's side: `mcp`, the tools, and `agent`, a scripted agent;
//! - the operators' side: `server`, the session as two stations drive it, with
//!   `clarify`, `difftext`, `protocol`, `codec`, `client` and `tls`.
//!
//! Each type has a view of plain mathematical values, contracts speak of those
//! views, and what holds of several operations together is a public proof
//! function: see `hold`, `audit::chain`, `gatehost::laws` and `server::laws`.
use vstd::prelude::*;

pub mod agent;
pub mod audit;
pub mod canonical;
pub mod clarify;
pub mod client;
pub mod codec;
pub mod difftext;
pub mod eligibility;
pub mod error;
pub mod fleet;
pub mod gatehost;
pub mod hold;
pub mod ids;
pub mod listing;
pub mod mcp;
pub mod policy;
pub mod protocol;
pub mod provenance;
pub mod sealed;
pub mod server;
pub mod session;
pub mod sign;
pub mod table;
pub mod text;
pub mod text_laws;
pub mod tls;
pub mod verdict;
pub mod workspace;
pub mod worktree;

verus! {

} // verus!
