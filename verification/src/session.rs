//! What every gate of a session shares.
use vstd::prelude::*;

use crate::eligibility::copy_operators;
use crate::ids::OperatorId;
use crate::policy::{default_policy, GatePolicy};

verus! {

/// Session-wide inputs shared across every gate: the co-constructed prompt, the
/// agent identity, the operator roster, and the policy of its gates.
#[derive(Debug)]
pub struct SessionContext {
    pub prompt: String,
    pub prompt_author: OperatorId,
    pub agent_id: String,
    pub agent_model: String,
    pub agent_version: String,
    /// Public identities of the operators supervising this session.
    pub operators: Vec<OperatorId>,
    pub policy: GatePolicy,
}

/// What a session context says.
#[verifier::ext_equal]
pub struct ContextView {
    pub prompt: Seq<char>,
    pub prompt_author: OperatorId,
    pub agent_id: Seq<char>,
    pub agent_model: Seq<char>,
    pub agent_version: Seq<char>,
    pub operators: Seq<OperatorId>,
    pub policy: GatePolicy,
}

impl View for SessionContext {
    type V = ContextView;

    open spec fn view(&self) -> ContextView {
        ContextView {
            prompt: self.prompt@,
            prompt_author: self.prompt_author,
            agent_id: self.agent_id@,
            agent_model: self.agent_model@,
            agent_version: self.agent_version@,
            operators: self.operators@,
            policy: self.policy,
        }
    }
}

impl Clone for SessionContext {
    fn clone(&self) -> (r: Self)
        ensures
            r@ == self@,
    {
        SessionContext {
            prompt: self.prompt.clone(),
            prompt_author: self.prompt_author,
            agent_id: self.agent_id.clone(),
            agent_model: self.agent_model.clone(),
            agent_version: self.agent_version.clone(),
            operators: copy_operators(&self.operators),
            policy: self.policy,
        }
    }
}

impl SessionContext {
    /// A context under the default policy.
    pub fn new(
        prompt: &str,
        prompt_author: OperatorId,
        agent_id: &str,
        agent_model: &str,
        agent_version: &str,
        operators: Vec<OperatorId>,
    ) -> (r: Self)
        ensures
            r@ == (ContextView {
                prompt: prompt@,
                prompt_author,
                agent_id: agent_id@,
                agent_model: agent_model@,
                agent_version: agent_version@,
                operators: operators@,
                policy: default_policy(),
            }),
    {
        SessionContext {
            prompt: prompt.to_owned(),
            prompt_author,
            agent_id: agent_id.to_owned(),
            agent_model: agent_model.to_owned(),
            agent_version: agent_version.to_owned(),
            operators,
            policy: GatePolicy::default(),
        }
    }

    pub fn with_policy(self, policy: GatePolicy) -> (r: Self)
        ensures
            r@ == (ContextView { policy, ..self@ }),
    {
        let mut r = self;
        r.policy = policy;
        r
    }
}

/// A context says what it was made of, and under which policy.
pub proof fn contexts_say_what_they_were_made_of(ctx: SessionContext)
    ensures
        ctx@.prompt == ctx.prompt@,
        ctx@.prompt_author == ctx.prompt_author,
        ctx@.agent_id == ctx.agent_id@,
        ctx@.agent_model == ctx.agent_model@,
        ctx@.agent_version == ctx.agent_version@,
        ctx@.operators == ctx.operators@,
        ctx@.policy == ctx.policy,
{
}

} // verus!
