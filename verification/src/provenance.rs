//! Provenance of a gate's change.
use vstd::prelude::*;

use crate::audit::record::{Provenance, ProvenanceView};
use crate::ids::TaskId;
use crate::session::{ContextView, SessionContext};
use crate::text::{copy_texts, texts};
use crate::workspace::FrozenDiff;

verus! {

/// The provenance of a task's frozen diff in a session.
pub open spec fn provenance_spec(
    ctx: ContextView,
    task_id: Seq<char>,
    diff_hash: Seq<u8>,
    frozen: FrozenDiff,
    tokens: nat,
) -> ProvenanceView {
    ProvenanceView {
        task_id,
        prompt: ctx.prompt,
        prompt_author: ctx.prompt_author,
        agent_id: ctx.agent_id,
        agent_model: ctx.agent_model,
        agent_version: ctx.agent_version,
        diff_hash,
        files: texts(frozen.files@),
        loc: frozen.loc as nat,
        tokens,
    }
}

/// Assemble a `Provenance` for a gate from the session context and the frozen
/// task diff. `Provenance` has no tool-trail field: the tool-trail is recorded
/// on the workspace, not folded into the signed record.
pub fn build_provenance(
    ctx: &SessionContext,
    task_id: &TaskId,
    diff_hash: crate::ids::Hash,
    frozen: &FrozenDiff,
    tokens: u64,
) -> (r: Provenance)
    ensures
        r@ == provenance_spec(ctx@, task_id@, diff_hash.0@, *frozen, tokens as nat),
        r.diff_hash == diff_hash,
{
    Provenance {
        task_id: task_id.clone(),
        prompt: ctx.prompt.clone(),
        prompt_author: ctx.prompt_author,
        agent_id: ctx.agent_id.clone(),
        agent_model: ctx.agent_model.clone(),
        agent_version: ctx.agent_version.clone(),
        diff_hash,
        files: copy_texts(&frozen.files),
        loc: frozen.loc,
        tokens,
    }
}

} // verus!
