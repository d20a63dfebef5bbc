//! The session server: what its two stations and its agent drive.
use vstd::prelude::*;

use crate::clarify::{Choice, Clarify};
use crate::gatehost::host::GateHost;
use crate::gatehost::model::{event_views, pending_gate_is_found, pending_of, HostEvent};
use crate::hold::HoldState;
use crate::ids::{GateId, OperatorId};
use crate::protocol::{ClientMsg, ServerMsg, WireChoice, WireFleetCard, WirePhase, WireRole, WireState, PROTOCOL_VERSION};
use crate::server::model::{
    asks_something, choice_of, first_shown, fresh_net, is_zero_key, plan_is_filled, refused,
    taking_in_goes_on, with_card, Admission, ConfigModel, JoinDecision, JoinStep, NetModel,
    SeatModel, ServerModel,
};
use crate::server::net::{card_model, Net, Phase, SeatState};
use crate::table::TextMap;
use crate::text::{
    copy_texts, decimal, hex_prefix, is_blank, lines_of, text_from_utf8, text_of, texts, trimmed,
};
use crate::verdict::CastVerdict;
use crate::workspace::Workspace;

verus! {

/// How a session is configured.
#[derive(Debug)]
pub struct SessionConfig {
    pub prompt: String,
    pub plan: Vec<String>,
    /// The label and the key of each seat. A second seat with the zero key is
    /// open to an operator's own key, once the host approves it.
    pub seats: [(String, OperatorId); 2],
}

impl View for SessionConfig {
    type V = ConfigModel;

    open spec fn view(&self) -> ConfigModel {
        ConfigModel {
            prompt: self.prompt@,
            plan: texts(self.plan@),
            seats: seq![
                (self.seats@[0].0@, self.seats@[0].1),
                (self.seats@[1].0@, self.seats@[1].1),
            ],
        }
    }
}

/// A session of two seats and one host.
pub struct SessionServer<W: Workspace> {
    host: GateHost<W>,
    cfg: SessionConfig,
    net: Net,
    /// What both stations were last shown.
    wire: WireState,
    plan_approved: bool,
    /// Resolves a pending join once the host approves or rejects it.
    join: JoinDecision,
}

impl<W: Workspace> View for SessionServer<W> {
    type V = ServerModel;

    closed spec fn view(&self) -> ServerModel {
        ServerModel {
            host: self.host@,
            cfg: self.cfg@,
            net: self.net@,
            wire: self.wire,
            plan_approved: self.plan_approved,
            join: self.join,
        }
    }
}

/// A seat of a session that has just started.
fn fresh_seat(label: &String, operator: OperatorId, role: WireRole) -> (r: SeatState)
    ensures
        r.label@ == label@,
        r.operator == operator,
        r.role == role,
        !r.linked,
        !r.ready,
        !r.afk,
{
    SeatState {
        label: label.clone(),
        operator,
        role,
        linked: false,
        ready: false,
        afk: false,
    }
}

impl<W: Workspace> SessionServer<W> {
    /// The parts keep their own invariants.
    pub closed spec fn parts_wf(&self) -> bool {
        self.host.wf() && self.net.wf()
    }

    /// The invariant of every session.
    pub open spec fn wf(&self) -> bool {
        self@.valid() && self.parts_wf()
    }

    pub fn new(host: GateHost<W>, cfg: SessionConfig) -> (r: Self)
        requires
            host.wf(),
        ensures
            r.wf(),
            r@ == (ServerModel {
                host: host@,
                cfg: cfg@,
                net: fresh_net(cfg@),
                wire: r@.wire,
                plan_approved: false,
                join: JoinDecision::Pending,
            }),
            first_shown(cfg@, r@.wire),
    {
        let mut seats: Vec<SeatState> = Vec::new();
        seats.push(fresh_seat(&cfg.seats[0].0, cfg.seats[0].1, WireRole::Host));
        seats.push(fresh_seat(&cfg.seats[1].0, cfg.seats[1].1, WireRole::Operator));
        let net = Net {
            phase: Phase::AwaitOperators,
            seats,
            fleet: Vec::new(),
            log: Vec::new(),
            agent_done: false,
            finalizing: false,
            agent_plan: None,
            prompt: cfg.prompt.clone(),
            last_cmd: TextMap::new(),
            claim: None,
            discuss: TextMap::new(),
            clarify: None,
            seat_b_bound: None,
            pending_join: None,
        };
        assert(net@ =~= fresh_net(cfg@));
        let wire = WireState {
            phase: WirePhase::AwaitOperators,
            seats: net.wire_seats(),
            fleet: Vec::new(),
            log: Vec::new(),
            gate: None,
            prompt: String::new(),
            pending_join: None,
        };
        SessionServer {
            host,
            cfg,
            net,
            wire,
            plan_approved: false,
            join: JoinDecision::Pending,
        }
    }

    /// The gates and the worktree behind the session.
    pub fn host(&self) -> (r: &GateHost<W>)
        ensures
            r@ == self@.host,
    {
        &self.host
    }

    /// The gates and the worktree, for the agent to work with.
    pub fn host_mut(&mut self) -> (r: &mut GateHost<W>)
        requires
            old(self).wf(),
        ensures
            r.wf(),
            r@ == old(self)@.host,
            final(self)@ == (ServerModel { host: final(r)@, ..old(self)@ }),
            final(r).wf() ==> final(self).wf(),
    {
        &mut self.host
    }

    /// What both stations are shown.
    pub fn state(&self) -> (r: &WireState)
        ensures
            *r == self@.wire,
    {
        &self.wire
    }

    /// Have both seats approved a plan?
    pub fn plan_approved(&self) -> (r: bool)
        ensures
            r == self@.plan_approved,
    {
        self.plan_approved
    }

    /// Return the current session prompt. During dispatch composition this may
    /// differ from the configured prompt. After dispatch it is locked to the
    /// text both seats consented to.
    pub fn session_prompt(&self) -> (r: String)
        ensures
            r@ == self@.net.prompt,
    {
        self.net.prompt.clone()
    }

    // -----------------------------------------------------------------------
    // What both stations see
    // -----------------------------------------------------------------------
    /// Hand the audit chain to the workspace, where it has a home for it, and
    /// log how that went.
    fn persist_audit(&mut self, now: u64)
        requires
            old(self).wf(),
        ensures
            final(self).wf(),
            final(self)@ == old(self)@.after_audit(final(self)@.host.calls.last(), now as nat),
            old(self)@.persists() ==> old(self)@.audit_call(final(self)@.host.calls.last()),
    {
        match self.host.persist_audit() {
            Some(Ok(path)) => {
                let line = "audit chain written · ".to_owned().concat(path.as_str());
                self.net.push_log(now, line.as_str());
            },
            Some(Err(words)) => {
                let line = "AUDIT WRITE FAILED: ".to_owned().concat(words.as_str());
                self.net.push_log(now, line.as_str());
            },
            None => {},
        }
    }

    /// The message of the merge commit. It carries the chain head in a trailer,
    /// so the commit and the evidence reference each other.
    fn merge_message(&self) -> (r: String)
        requires
            self.wf(),
        ensures
            r@ == self@.merge_message(),
    {
        let lines = lines_of(self.net.prompt.as_str());
        let first = if lines.len() > 0 {
            text_of(&lines[0], 0, lines[0].len())
        } else {
            self.net.prompt.clone()
        };
        let head = self.host.audit_head();
        let head_hex = hex_prefix(head.0.as_slice(), 32);
        let a = self.net.seats[0].operator.fingerprint();
        let b = self.net.seats[1].operator.fingerprint();
        "kontur session: ".to_owned().concat(first.as_str()).concat("\n\nReviewed-by: ").concat(
            self.net.seats[0].label.as_str(),
        ).concat(" ").concat(a.as_str()).concat("\nReviewed-by: ").concat(
            self.net.seats[1].label.as_str(),
        ).concat(" ").concat(b.as_str()).concat("\nAudit-chain: sha256:").concat(
            head_hex.as_str(),
        )
    }

    /// The phase of a closed session.
    fn closed_phase(&self, merged: bool, abandoned: bool) -> (r: Phase)
        requires
            self.wf(),
        ensures
            r@ == self@.closed(merged, abandoned).net.phase,
    {
        let gates: usize = self.host.audit_len();
        let chain_verified = self.host.verify_audit().is_ok();
        Phase::Closed { gates, chain_verified, reviewers: self.net.labels(), merged, abandoned }
    }

    /// Merge the reviewed work and close the session.
    fn finalize(&mut self, now: u64)
        requires
            old(self).wf(),
            pending_of(old(self)@.host.gates).len() == 0,
        ensures
            final(self).wf(),
            old(self)@.finalized(final(self)@, now as nat),
    {
        let ghost before = self@;
        let message = self.merge_message();
        self.net.finalizing = true;
        let ghost claimed = self@;
        self.persist_audit(now);
        let ghost audit = self@.host.calls.last();
        let ghost persisted = self@;
        let merged = match self.host.merge_session(message.as_str()) {
            Ok(_) => true,
            Err(e) => {
                let words = e.message();
                let line = "merge error: ".to_owned().concat(words.as_str());
                self.net.push_log(now, line.as_str());
                false
            },
        };
        let ghost merge = self@.host.calls.last();
        self.net.phase = self.closed_phase(merged, false);
        self.net.push_log(now, "session closed");
        let ghost end = self@;
        self.rebuild();
        proof {
            assert(end.net =~= persisted.after_merge(merge, now as nat).net);
            if before.persists() {
                assert(self@.host.calls[before.host.calls.len() as int] == audit);
            }
        }
    }

    /// Close the session where everything is done, and show both stations where
    /// it stands. A gate that still pends (say a hand-edit opened after the
    /// agent finished) leaves the closing to the cast that resolves it.
    fn refresh(&mut self, now: u64)
        requires
            old(self).wf(),
        ensures
            final(self).wf(),
            old(self)@.refreshed(final(self)@, now as nat),
    {
        let executing = matches!(self.net.phase, Phase::Executing);
        if executing && self.net.agent_done && !self.net.finalizing {
            if self.host.pending_gates().len() == 0 {
                self.finalize(now);
                return;
            }
        }
        self.rebuild();
    }

    /// Rebuild what both stations are shown.
    fn rebuild(&mut self)
        requires
            old(self).wf(),
        ensures
            final(self).wf(),
            old(self)@.rebuilt(final(self)@),
    {
        let ghost before = self@;
        let pending = self.host.pending_gates();
        let gate = if pending.len() > 0 {
            let gv = &pending[0];
            let ghost shown = pending_of(before.host.gates)[0];
            proof {
                pending_gate_is_found(before.host, 0);
            }
            let diff = self.host.gate_diff(&gv.gate_id);
            Some(self.net.wire_gate(gv, diff, Ghost(shown)))
        } else {
            None
        };
        self.wire = WireState {
            phase: self.net.wire_phase(&self.cfg.plan),
            seats: self.net.wire_seats(),
            fleet: self.net.wire_fleet(),
            log: copy_texts(&self.net.log),
            gate,
            prompt: self.net.prompt.clone(),
            pending_join: self.net.wire_pending_join(),
        };
    }
}

/// A refusal with these words.
fn refuse(words: &str) -> (r: Vec<ServerMsg>)
    ensures
        refused(r@, words@),
{
    let mut r: Vec<ServerMsg> = Vec::new();
    r.push(ServerMsg::Rejected { reason: words.to_owned() });
    r
}

/// Is every task of the list filled in?
fn all_filled(tasks: &Vec<String>) -> (r: bool)
    ensures
        r == plan_is_filled(texts(tasks@)),
{
    let ghost words = texts(tasks@);
    if tasks.len() == 0 {
        return false;
    }
    let mut i: usize = 0;
    while i < tasks.len()
        invariant
            0 <= i <= tasks.len(),
            words == texts(tasks@),
            words.len() == tasks@.len(),
            forall|j: int| 0 <= j < i ==> trimmed(#[trigger] words[j]).len() > 0,
        decreases tasks.len() - i,
    {
        if is_blank(tasks[i].as_str()) {
            assert(trimmed(words[i as int]).len() == 0);
            return false;
        }
        i = i + 1;
    }
    true
}

impl<W: Workspace> SessionServer<W> {
    // -----------------------------------------------------------------------
    // Messages of the seats
    // -----------------------------------------------------------------------
    /// A seat has marked itself ready. Both ready moves the session on.
    fn on_ready(&mut self, seat: usize, now: u64)
        requires
            old(self).wf(),
            seat < 2,
        ensures
            final(self).wf(),
            final(self)@ == old(self)@.after_ready(seat as int, now as nat),
    {
        self.net.mark_ready(seat);
        if !self.net.both_ready() {
            return;
        }
        let dispatching = matches!(self.net.phase, Phase::DispatchReady);
        let planning = matches!(self.net.phase, Phase::PlanReview);
        if dispatching {
            // A blank instruction cannot be dispatched: consent must be
            // re-signalled once a prompt actually exists.
            if is_blank(self.net.prompt.as_str()) {
                self.net.reset_ready();
                self.net.push_log(now, "prompt is empty — compose with [p]");
                return;
            }
            self.net.reset_ready();
            self.net.phase = Phase::PlanReview;
            self.net.push_log(now, "dispatch confirmed · plan review");
            // The prompt may have arrived only as live drafts, so the host gets
            // exactly the text both seats consented to.
            let prompt = self.net.prompt.clone();
            self.host.set_prompt(prompt);
        } else if planning {
            let plan = self.net.effective_plan(&self.cfg.plan);
            if plan.len() == 0 {
                self.net.reset_ready();
                self.net.push_log(now, "waiting for agent plan");
                return;
            }
            self.net.reset_ready();
            self.net.phase = Phase::Executing;
            self.net.push_log(now, "plan approved · executing");
            // The single point where the stored plan becomes what both seats
            // approved.
            self.host.set_plan(plan);
            self.host.approve_plan();
            self.plan_approved = true;
        }
    }

    /// A verdict from a seat. It is bound to the connection's own identity: a
    /// seat may only cast as itself.
    fn on_cast(
        &mut self,
        seat: usize,
        operator: OperatorId,
        gate_id: GateId,
        verdict: CastVerdict,
        now: u64,
    ) -> (r: Vec<ServerMsg>)
        requires
            old(self).wf(),
            seat < 2,
        ensures
            final(self).wf(),
            old(self)@.cast_handled(
                seat as int,
                operator,
                gate_id,
                verdict,
                now as nat,
                r@,
                final(self)@,
            ),
    {
        if verdict.operator != operator {
            return refuse("verdict identity does not match your seat");
        }
        let label = self.net.label(seat);
        let answer = self.host.submit_verdict(&gate_id, verdict);
        match answer {
            Err(e) => {
                let words = e.message();
                refuse(words.as_str())
            },
            Ok(progress) => {
                let line = label.concat(" cast · sealed");
                self.net.push_log(now, line.as_str());
                match progress.state {
                    HoldState::Satisfied => {
                        let line = "gate ".to_owned().concat(gate_id.0.as_str()).concat(
                            " · both keys in · accepted",
                        );
                        self.net.push_log(now, line.as_str());
                    },
                    HoldState::Blocked => {
                        let line = "gate ".to_owned().concat(gate_id.0.as_str()).concat(
                            " · no-go · remedy routed to agent",
                        );
                        self.net.push_log(now, line.as_str());
                    },
                    _ => {},
                }
                self.refresh(now);
                Vec::new()
            },
        }
    }

    /// A hand-edit from a seat, on the task of the first pending gate.
    fn on_hand_edit(
        &mut self,
        seat: usize,
        operator: OperatorId,
        path: String,
        contents: String,
        now: u64,
    ) -> (r: Vec<ServerMsg>)
        requires
            old(self).wf(),
            old(self)@.host.has_room(),
            seat < 2,
        ensures
            final(self).wf(),
            old(self)@.edit_handled(
                seat as int,
                operator,
                path@,
                contents@,
                now as nat,
                r@,
                final(self)@,
            ),
    {
        let pending = self.host.pending_gates();
        if pending.len() == 0 {
            return refuse("no active gate for hand-edit");
        }
        let task_id = pending[0].task_id.clone();
        let label = self.net.label(seat);
        let bytes = contents.as_str().as_bytes();
        let answer = self.host.hand_edit(task_id, path.as_str(), bytes, operator);
        match answer {
            Err(e) => {
                let words = e.message();
                refuse(words.as_str())
            },
            Ok(_) => {
                let line = label.concat(" hand-edit ").concat(path.as_str()).concat(
                    " · applied · fresh gate",
                );
                self.net.push_log(now, line.as_str());
                self.refresh(now);
                Vec::new()
            },
        }
    }

    /// The kill-switch of a seat. It wins over a closing that is under way.
    fn on_abandon(&mut self, seat: usize, now: u64) -> (r: Vec<ServerMsg>)
        requires
            old(self).wf(),
            seat < 2,
        ensures
            final(self).wf(),
            old(self)@.abandon_handled(seat as int, now as nat, r@, final(self)@),
    {
        let closed = matches!(self.net.phase, Phase::Closed { .. });
        if closed {
            return Vec::new();
        }
        let ghost before = self@;
        let label = self.net.label(seat);
        self.net.finalizing = true;
        let answer = self.host.abandon_session();
        let ghost host = self.host@;
        match &answer {
            Err(e) => {
                let words = e.message();
                let line = "abandon error: ".to_owned().concat(words.as_str());
                self.net.push_log(now, line.as_str());
            },
            Ok(_) => {},
        }
        self.persist_audit(now);
        let ghost audit = self@.host.calls.last();
        self.net.phase = self.closed_phase(false, true);
        let line = label.concat(" abandoned the session — nothing merged");
        self.net.push_log(now, line.as_str());
        assert(self@ == before.after_abandon(seat as int, now as nat, host, answer, audit));
        self.refresh(now);
        let none: Vec<ServerMsg> = Vec::new();
        none
    }

    /// A seat asks for a file of the task under review.
    fn on_fetch(&mut self, path: String) -> (r: Vec<ServerMsg>)
        requires
            old(self).wf(),
        ensures
            final(self).wf(),
            old(self)@.fetch_handled(path@, r@, final(self)@),
    {
        let pending = self.host.pending_gates();
        if pending.len() == 0 {
            return refuse("no active gate — nothing to fetch");
        }
        let found = match self.host.read_file(&pending[0].task_id, path.as_str()) {
            Err(e) => {
                let words = e.message();
                return refuse(words.as_str());
            },
            Ok(found) => found,
        };
        let mut r: Vec<ServerMsg> = Vec::new();
        match found {
            None => {
                r.push(ServerMsg::FileContent { path, contents: None });
            },
            Some(bytes) => {
                match text_from_utf8(bytes) {
                    Some(text) => {
                        r.push(ServerMsg::FileContent { path, contents: Some(text) });
                    },
                    None => {
                        r.push(ServerMsg::FileContent { path, contents: None });
                        r.push(
                            ServerMsg::Rejected {
                                reason: "binary file — hand-edit on the host machine".to_owned(),
                            },
                        );
                    },
                }
            },
        }
        r
    }
}

/// Is this the key that stands for none?
fn is_zero(op: &OperatorId) -> (r: bool)
    ensures
        r == is_zero_key(*op),
{
    let mut i: usize = 0;
    while i < 32
        invariant
            0 <= i <= 32,
            forall|j: int| 0 <= j < i ==> #[trigger] op.0@[j] == 0,
        decreases 32 - i,
    {
        if op.0[i] != 0 {
            return false;
        }
        i = i + 1;
    }
    true
}

impl<W: Workspace> SessionServer<W> {
    /// Handle a message of a seat, after its hello. `operator` is who the
    /// seat's connection belongs to. Returns the replies to that connection.
    pub fn handle_client_msg(
        &mut self,
        seat: usize,
        operator: OperatorId,
        msg: ClientMsg,
        now: u64,
    ) -> (r: Vec<ServerMsg>)
        requires
            old(self).wf(),
            msg is HandEdit ==> old(self)@.host.has_room(),
            seat < 2,
        ensures
            final(self).wf(),
            old(self)@.handled(seat as int, operator, msg, now as nat, r@, final(self)@),
    {
        match msg {
            ClientMsg::Hello { .. } => {
                // A hello after the first one is ignored.
            },
            ClientMsg::Bye => {
                // The connection's end is what counts.
            },
            ClientMsg::Ping => {
                let mut r: Vec<ServerMsg> = Vec::new();
                r.push(ServerMsg::Pong);
                return r;
            },
            ClientMsg::Ready => {
                self.on_ready(seat, now);
                self.refresh(now);
            },
            ClientMsg::Cast { gate_id, verdict } => {
                return self.on_cast(seat, operator, gate_id, verdict, now);
            },
            ClientMsg::HandEdit { path, contents } => {
                return self.on_hand_edit(seat, operator, path, contents, now);
            },
            ClientMsg::Abandon => {
                return self.on_abandon(seat, now);
            },
            ClientMsg::FetchFile { path } => {
                return self.on_fetch(path);
            },
            ClientMsg::Claim { gate_id } => {
                self.net.toggle_claim(seat, &gate_id, now);
                self.refresh(now);
            },
            ClientMsg::Answer { question, choice } => {
                self.on_answer(seat, question, choice, now);
            },
            ClientMsg::Discuss { gate_id, text } => {
                if !is_blank(text.as_str()) {
                    self.net.add_note(seat, &gate_id, text.as_str(), now);
                    self.refresh(now);
                }
            },
            ClientMsg::ResolveJoin { operator: joining, approve } => {
                // Only the host seat may approve or reject a join.
                if seat == 0 {
                    self.on_join_decision(joining, approve, now);
                    self.refresh(now);
                }
            },
            ClientMsg::SetAfk { afk } => {
                if self.net.seats[seat].afk != afk {
                    self.net.set_afk(seat, afk, now);
                    self.refresh(now);
                }
            },
            ClientMsg::EditPlan { tasks } => {
                return self.on_edit_plan(seat, tasks, now);
            },
            ClientMsg::SteerPlan { steer } => {
                return self.on_steer_plan(seat, steer, now);
            },
            ClientMsg::SetPrompt { prompt } => {
                return self.on_set_prompt(seat, prompt, now);
            },
            ClientMsg::PromptDraft { prompt } => {
                let composing = matches!(self.net.phase, Phase::DispatchReady);
                if !composing {
                    return refuse("prompt is locked after dispatch");
                }
                // The other seat sees each keystroke. A draft is not a logged
                // event; the host receives the authoritative text at dispatch.
                self.net.reset_ready();
                self.net.prompt = prompt;
                self.refresh(now);
            },
        }
        Vec::new()
    }

    /// A seat's answer to a clarification question.
    fn on_answer(&mut self, seat: usize, question: usize, choice: WireChoice, now: u64)
        requires
            old(self).wf(),
            seat < 2,
        ensures
            final(self).wf(),
            if old(self)@.net.phase is Clarify && old(self)@.net.clarify is Some {
                old(self)@.after_answer(
                    seat as nat,
                    question as int,
                    choice_of(choice),
                    now as nat,
                ).refreshed(final(self)@, now as nat)
            } else {
                final(self)@ == old(self)@
            },
    {
        let asking = matches!(self.net.phase, Phase::Clarify);
        if !asking {
            return;
        }
        let mut slot: Option<Clarify> = None;
        std::mem::swap(&mut slot, &mut self.net.clarify);
        let mut exchange = match slot {
            Some(exchange) => exchange,
            None => {
                return;
            },
        };
        let picked = match choice {
            WireChoice::Option(i) => Choice::Option(i),
            WireChoice::Custom(s) => Choice::Custom(s),
        };
        exchange.answer(seat, question, picked);
        match exchange.resolved() {
            Some(answers) => {
                self.net.phase = Phase::PlanReview;
                self.net.push_log(now, "clarification resolved · awaiting agent plan");
                self.host.resolve_clarification(answers);
            },
            None => {
                self.net.clarify = Some(exchange);
            },
        }
        self.refresh(now);
    }

    /// The host seat's decision on an operator's own key.
    fn on_join_decision(&mut self, joining: OperatorId, approve: bool, now: u64)
        requires
            old(self).wf(),
        ensures
            final(self).wf(),
            final(self)@ == old(self)@.after_join_decision(joining, approve, now as nat),
    {
        let print = joining.fingerprint();
        let line = if approve {
            self.join = JoinDecision::Approved(joining);
            "host ".to_owned().concat("approved")
        } else {
            self.join = JoinDecision::Rejected(joining);
            "host ".to_owned().concat("rejected")
        };
        let line = line.concat(" Operator B (").concat(print.as_str()).concat(")");
        self.net.push_log(now, line.as_str());
    }

    /// A seat replaces the plan. Any edit resets both ready flags, so both seats
    /// consent to the plan they actually see.
    fn on_edit_plan(&mut self, seat: usize, tasks: Vec<String>, now: u64) -> (r: Vec<ServerMsg>)
        requires
            old(self).wf(),
            seat < 2,
        ensures
            final(self).wf(),
            if !(old(self)@.net.phase is PlanReview) {
                old(self)@.turns_down(r@, final(self)@, "plan is locked"@)
            } else if !plan_is_filled(texts(tasks@)) {
                old(self)@.turns_down(r@, final(self)@, "plan tasks cannot be empty"@)
            } else {
                old(self)@.after_plan_edit(seat as int, texts(tasks@), now as nat).shows(
                    r@,
                    final(self)@,
                    now as nat,
                )
            },
    {
        let planning = matches!(self.net.phase, Phase::PlanReview);
        if !planning {
            return refuse("plan is locked");
        }
        if !all_filled(&tasks) {
            return refuse("plan tasks cannot be empty");
        }
        let count = decimal(tasks.len() as u64);
        let line = self.net.label(seat).concat(" edited the plan (").concat(
            count.as_str(),
        ).concat(" tasks)");
        self.net.reset_ready();
        self.net.agent_plan = Some(tasks);
        self.net.push_log(now, line.as_str());
        self.refresh(now);
        Vec::new()
    }

    /// A seat steers a replan: the current list is withdrawn until the agent
    /// proposes again. There is no bare veto.
    fn on_steer_plan(&mut self, seat: usize, steer: String, now: u64) -> (r: Vec<ServerMsg>)
        requires
            old(self).wf(),
            seat < 2,
        ensures
            final(self).wf(),
            if !(old(self)@.net.phase is PlanReview) {
                old(self)@.turns_down(r@, final(self)@, "plan is locked"@)
            } else if trimmed(steer@).len() == 0 {
                old(self)@.turns_down(r@, final(self)@, "steer cannot be empty"@)
            } else {
                old(self)@.after_steer(seat as int, steer, now as nat).shows(
                    r@,
                    final(self)@,
                    now as nat,
                )
            },
    {
        let planning = matches!(self.net.phase, Phase::PlanReview);
        if !planning {
            return refuse("plan is locked");
        }
        if is_blank(steer.as_str()) {
            return refuse("steer cannot be empty");
        }
        let line = self.net.label(seat).concat(" steered a replan");
        self.net.reset_ready();
        self.net.agent_plan = None;
        self.net.push_log(now, line.as_str());
        self.host.steer_plan(steer);
        self.refresh(now);
        Vec::new()
    }

    /// A seat commits a prompt. Any edit resets both ready flags, so no seat
    /// can mark ready against one prompt and have another dispatched.
    fn on_set_prompt(&mut self, seat: usize, prompt: String, now: u64) -> (r: Vec<ServerMsg>)
        requires
            old(self).wf(),
            seat < 2,
        ensures
            final(self).wf(),
            if !(old(self)@.net.phase is DispatchReady) {
                old(self)@.turns_down(r@, final(self)@, "prompt is locked after dispatch"@)
            } else if trimmed(prompt@).len() == 0 {
                old(self)@.turns_down(r@, final(self)@, "prompt cannot be empty"@)
            } else {
                old(self)@.after_prompt(seat as int, prompt@, now as nat).shows(
                    r@,
                    final(self)@,
                    now as nat,
                )
            },
    {
        let composing = matches!(self.net.phase, Phase::DispatchReady);
        if !composing {
            return refuse("prompt is locked after dispatch");
        }
        if is_blank(prompt.as_str()) {
            return refuse("prompt cannot be empty");
        }
        let line = self.net.label(seat).concat(" edited the prompt");
        self.net.reset_ready();
        self.net.prompt = prompt.clone();
        self.net.push_log(now, line.as_str());
        self.host.set_prompt(prompt);
        self.refresh(now);
        Vec::new()
    }
}

impl<W: Workspace> SessionServer<W> {
    // -----------------------------------------------------------------------
    // Connections
    // -----------------------------------------------------------------------
    /// What becomes of a connection's first message.
    pub fn greet(&self, msg: &ClientMsg) -> (r: Admission)
        ensures
            self@.cfg.admits(*msg, r),
    {
        let (seat, operator, protocol) = match msg {
            ClientMsg::Hello { seat, operator, protocol } => (seat, *operator, *protocol),
            _ => {
                return Admission::Refused("first message must be Hello".to_owned());
            },
        };
        // Version gate first: a build mismatch must fail with a clear message.
        if protocol != PROTOCOL_VERSION {
            let ours = decimal(PROTOCOL_VERSION as u64);
            let theirs = decimal(protocol as u64);
            return Admission::Refused(
                "protocol mismatch — update kontur (server v".to_owned().concat(
                    ours.as_str(),
                ).concat(", client v").concat(theirs.as_str()).concat(")"),
            );
        }
        // The zero key only marks an open seat: it must not match that seat.
        if is_zero(&operator) {
            return Admission::Refused("invalid operator identity".to_owned());
        }
        if self.cfg.seats[0].1 == operator {
            Admission::Seated(0)
        } else if self.cfg.seats[1].1 == operator {
            Admission::Seated(1)
        } else if is_zero(&self.cfg.seats[1].1) {
            Admission::OwnKey(operator)
        } else {
            Admission::Refused(
                "unknown operator (client seat: ".to_owned().concat(seat.as_str()).concat(")"),
            )
        }
    }

    /// An operator asks to join with their own key: seated again if bound to
    /// it, refused if another is bound or waits, otherwise held until the host
    /// approves the fingerprint.
    pub fn request_join(&mut self, operator: OperatorId, now: u64) -> (r: JoinStep)
        requires
            old(self).wf(),
        ensures
            final(self).wf(),
            old(self)@.join_requested(operator, now as nat, r, final(self)@),
    {
        match self.net.seat_b_bound {
            Some(bound) => {
                if bound == operator {
                    return JoinStep::Seated(1);
                }
                return JoinStep::Refused(
                    "seat B is already bound to a different key".to_owned(),
                );
            },
            None => {},
        }
        match self.net.pending_join {
            Some(other) => {
                if other != operator {
                    return JoinStep::Refused(
                        "another operator is already awaiting approval — try again shortly".to_owned(),
                    );
                }
            },
            None => {},
        }
        self.net.pending_join = Some(operator);
        let fingerprint = operator.fingerprint();
        let line = "Operator B requests approval · fingerprint ".to_owned().concat(
            fingerprint.as_str(),
        );
        self.net.push_log(now, line.as_str());
        self.refresh(now);
        JoinStep::Waiting { fingerprint }
    }

    /// What the host has decided about this key so far.
    pub fn join_decision(&self, operator: OperatorId) -> (r: Option<bool>)
        ensures
            r == self@.join_decision(operator),
    {
        match self.join {
            JoinDecision::Approved(op) => if op == operator {
                Some(true)
            } else {
                None
            },
            JoinDecision::Rejected(op) => if op == operator {
                Some(false)
            } else {
                None
            },
            JoinDecision::Pending => None,
        }
    }

    /// The wait for the host's decision is over. The first approval wins the
    /// seat; the approved key becomes the seat's identity, so that display,
    /// trailers and the roster show the real operator.
    pub fn settle_join(&mut self, operator: OperatorId, now: u64) -> (r: Result<usize, String>)
        requires
            old(self).wf(),
        ensures
            final(self).wf(),
            old(self)@.join_settled(operator, r),
            old(self)@.after_join(operator).refreshed(final(self)@, now as nat),
    {
        let ghost before = self@;
        let waiting = match self.net.pending_join {
            Some(op) => op == operator,
            None => false,
        };
        if waiting {
            self.net.pending_join = None;
        }
        let r: Result<usize, String> = match self.join_decision(operator) {
            Some(true) => match self.net.seat_b_bound {
                Some(bound) => if bound == operator {
                    Ok(1)
                } else {
                    Err("seat B is already bound to a different key".to_owned())
                },
                None => {
                    self.net.seat_b_bound = Some(operator);
                    self.net.seats[1].operator = operator;
                    assert(self.net@.seats =~= before.net.seats.update(
                        1,
                        SeatModel { operator, ..before.net.seats[1] },
                    ));
                    self.host.register_operator(operator);
                    Ok(1)
                },
            },
            Some(false) => Err("join rejected by host".to_owned()),
            None => Err("approval timed out".to_owned()),
        };
        assert(self@.net =~= before.after_join(operator).net);
        assert(self@ == before.after_join(operator));
        self.refresh(now);
        r
    }

    /// A seat has linked: both stations see it, and it is welcomed.
    pub fn link(&mut self, seat: usize, now: u64) -> (r: ServerMsg)
        requires
            old(self).wf(),
            seat < 2,
        ensures
            final(self).wf(),
            old(self)@.with_net(old(self)@.net.after_link(seat as int, now as nat)).refreshed(
                final(self)@,
                now as nat,
            ),
            r matches ServerMsg::Welcome { seat: label } && label@ == old(
                self,
            )@.cfg.seats[seat as int].0,
    {
        self.net.link(seat, now);
        self.refresh(now);
        ServerMsg::Welcome { seat: self.cfg.seats[seat].0.clone() }
    }

    /// A seat has dropped.
    pub fn disconnect(&mut self, seat: usize, now: u64)
        requires
            old(self).wf(),
            seat < 2,
        ensures
            final(self).wf(),
            old(self)@.with_net(
                old(self)@.net.after_disconnect(seat as int, now as nat),
            ).refreshed(final(self)@, now as nat),
    {
        self.net.disconnect(seat, now);
        self.refresh(now);
    }

    // -----------------------------------------------------------------------
    // What the agent and the host report
    // -----------------------------------------------------------------------
    /// Take in one event of the host.
    pub fn on_host_event(&mut self, ev: HostEvent, now: u64)
        requires
            old(self).wf(),
            asks_something(ev@),
        ensures
            final(self).wf(),
            old(self)@.event_taken(ev@, now as nat, final(self)@),
    {
        let abandoned = matches!(ev, HostEvent::SessionAbandoned);
        if abandoned {
            return;
        }
        let agent_id = self.host.agent_id();
        self.net.on_event(agent_id.as_str(), ev, now);
        self.refresh(now);
    }

    /// Can what happened on the host be taken in: does every question list that
    /// the agent sent ask something?
    pub fn can_pump(&self) -> (r: bool)
        ensures
            r == forall|i: int|
                0 <= i < self@.host.events.len() ==> asks_something(
                    #[trigger] self@.host.events[i],
                ),
    {
        !self.host.asks_nothing()
    }

    /// Take in what happened on the host since the last call.
    pub fn pump(&mut self, now: u64)
        requires
            old(self).wf(),
            forall|i: int|
                0 <= i < old(self)@.host.events.len() ==> asks_something(
                    #[trigger] old(self)@.host.events[i],
                ),
        ensures
            final(self).wf(),
            old(self)@.pumped(now as nat, final(self)@),
    {
        let ghost before = self@;
        let mut events = self.host.take_events();
        let ghost drained = self@;
        let ghost all = events@;
        let ghost views = event_views(all);
        let ghost mut i: int = 0;
        while events.len() > 0
            invariant
                self.wf(),
                0 <= i <= all.len(),
                events@ == all.skip(i),
                views == event_views(all),
                views == before.host.events,
                forall|j: int| 0 <= j < views.len() ==> asks_something(#[trigger] views[j]),
                drained.takes_in(views.take(i), now as nat, self@),
            decreases events.len(),
        {
            let ev = events.remove(0);
            let ghost was = self@;
            self.on_host_event(ev, now);
            proof {
                assert(views.take(i + 1) =~= views.take(i).push(views[i]));
                taking_in_goes_on(drained, views.take(i), now as nat, was, views[i], self@);
                i = i + 1;
            }
        }
        assert(views.take(all.len() as int) =~= views);
    }

    /// The agent reports its status.
    pub fn agent_status(&mut self, card: WireFleetCard, now: u64)
        requires
            old(self).wf(),
        ensures
            final(self).wf(),
            old(self)@.with_net(
                NetModel {
                    fleet: with_card(old(self)@.net.fleet, card_model(card)),
                    ..old(self)@.net
                },
            ).refreshed(final(self)@, now as nat),
    {
        self.net.set_card(card);
        self.refresh(now);
    }

    /// The agent logs a line.
    pub fn agent_log(&mut self, line: String, now: u64)
        requires
            old(self).wf(),
        ensures
            final(self).wf(),
            old(self)@.with_net(old(self)@.net.logged(now as nat, line@)).refreshed(
                final(self)@,
                now as nat,
            ),
    {
        self.net.push_log(now, line.as_str());
        self.refresh(now);
    }

    /// The agent has finished: the session closes once nothing pends.
    pub fn agent_done(&mut self, now: u64)
        requires
            old(self).wf(),
        ensures
            final(self).wf(),
            old(self)@.with_net(NetModel { agent_done: true, ..old(self)@.net }).refreshed(
                final(self)@,
                now as nat,
            ),
    {
        self.net.agent_done = true;
        self.refresh(now);
    }
}

} // verus!
