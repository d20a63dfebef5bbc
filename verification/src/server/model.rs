//! The session as the two stations drive it, and how each message changes it.
use vstd::prelude::*;

use crate::audit::chain::head_of;
use crate::clarify::{Choice, ClarifyView, QuestionState};
use crate::difftext::split_or_whole_spec;
use crate::error::{GateHostError, WorkspaceError};
use crate::gatehost::host::audit_name;
use crate::gatehost::model::{
    pending_of, AskedView, EventView, GateModel, GateProgress, HostModel, PlanDecision,
};
use crate::hold::HoldState;
use crate::ids::{GateId, OperatorId};
use crate::protocol::{
    ClientMsg, ServerMsg, WireChoice, WireFileDiff, WireGate, WirePhase, WireQuestion, WireRole,
    WireSeat, WireState, PROTOCOL_VERSION,
};
use crate::session::ContextView;
use crate::text::{
    decimal_spec, fitting, hex_spec, lines_spec, signed_decimal_spec, texts, trimmed, zero_padded,
};
use crate::verdict::CastVerdict;
use crate::workspace::WorkspaceCall;

verus! {

/// Outcome of the host's decision on a pending operator's own key.
#[derive(Clone, Copy, PartialEq, Eq, Debug)]
pub enum JoinDecision {
    Pending,
    Approved(OperatorId),
    Rejected(OperatorId),
}

/// Where a session stands.
#[verifier::ext_equal]
pub enum PhaseModel {
    AwaitOperators,
    DispatchReady,
    PlanReview,
    Clarify,
    Executing,
    Closed {
        gates: nat,
        chain_verified: bool,
        reviewers: Seq<Seq<char>>,
        merged: bool,
        abandoned: bool,
    },
}

#[verifier::ext_equal]
pub struct SeatModel {
    pub label: Seq<char>,
    pub operator: OperatorId,
    pub role: WireRole,
    pub linked: bool,
    pub ready: bool,
    pub afk: bool,
}

#[verifier::ext_equal]
pub struct CardModel {
    pub id: Seq<char>,
    pub status: Seq<char>,
    pub needs_signoff: bool,
}

#[verifier::ext_equal]
pub struct CmdModel {
    pub command: Seq<char>,
    pub exit_code: i32,
}

/// What the stations share beside the gates.
#[verifier::ext_equal]
pub struct NetModel {
    pub phase: PhaseModel,
    pub seats: Seq<SeatModel>,
    pub fleet: Seq<CardModel>,
    pub log: Seq<Seq<char>>,
    pub agent_done: bool,
    pub finalizing: bool,
    pub agent_plan: Option<Seq<Seq<char>>>,
    pub prompt: Seq<char>,
    pub last_cmd: Map<Seq<char>, CmdModel>,
    /// The review gate that a seat says it is reviewing, and the seat.
    pub claim: Option<(Seq<char>, nat)>,
    /// The notes on each gate, with the seat that made each.
    pub discuss: Map<Seq<char>, Seq<(nat, Seq<char>)>>,
    pub clarify: Option<ClarifyView>,
    /// The key that a seat open to any operator was bound to.
    pub seat_b_bound: Option<OperatorId>,
    pub pending_join: Option<OperatorId>,
}

/// Minutes and seconds before a line of the log.
pub open spec fn stamped(now: nat, text: Seq<char>) -> Seq<char> {
    zero_padded(decimal_spec(now / 60), 2) + ":"@ + zero_padded(decimal_spec(now % 60), 2) + " "@
        + text
}

/// The last eight lines.
pub open spec fn last_eight(log: Seq<Seq<char>>) -> Seq<Seq<char>> {
    if log.len() > 8 {
        log.skip(log.len() - 8)
    } else {
        log
    }
}

/// Where the card with this id stands, or the number of cards.
pub open spec fn card_index(fleet: Seq<CardModel>, id: Seq<char>) -> nat
    decreases fleet.len(),
{
    if fleet.len() == 0 || fleet[0].id == id {
        0
    } else {
        1 + card_index(fleet.skip(1), id)
    }
}

/// The fleet with this card in place of the one with its id, or at the end.
pub open spec fn with_card(fleet: Seq<CardModel>, card: CardModel) -> Seq<CardModel> {
    let i = card_index(fleet, card.id);
    if i < fleet.len() {
        fleet.update(i as int, card)
    } else {
        fleet.push(card)
    }
}

/// The fleet with the card of this id changed, if there is one.
pub open spec fn with_status(fleet: Seq<CardModel>, card: CardModel) -> Seq<CardModel> {
    let i = card_index(fleet, card.id);
    if i < fleet.len() {
        fleet.update(i as int, card)
    } else {
        fleet
    }
}

/// The first forty characters.
pub open spec fn first_forty(s: Seq<char>) -> Seq<char> {
    if s.len() > 40 {
        s.take(40)
    } else {
        s
    }
}

/// The exchange over what the agent asked.
pub open spec fn exchange_of(questions: Seq<AskedView>) -> ClarifyView {
    ClarifyView {
        prompts: questions.map_values(|q: AskedView| q.prompt),
        states: questions.map_values(
            |q: AskedView| QuestionState::Collecting { options: q.options, a: None, b: None },
        ),
    }
}

impl NetModel {
    /// What holds of every session.
    pub open spec fn valid(self) -> bool {
        &&& self.seats.len() == 2
        &&& self.log.len() <= 8
        &&& self.claim matches Some(c) ==> c.1 < 2
        &&& forall|gate: Seq<char>, i: int|
            self.discuss.contains_key(gate) && 0 <= i < self.discuss[gate].len() ==> (
            #[trigger] self.discuss[gate][i]).0 < 2
        &&& self.clarify matches Some(c) ==> c.valid()
    }

    /// With one more line in the log, which keeps the last eight.
    pub open spec fn logged(self, now: nat, text: Seq<char>) -> NetModel {
        NetModel { log: last_eight(self.log.push(stamped(now, text))), ..self }
    }

    pub open spec fn with_seat(self, seat: int, s: SeatModel) -> NetModel {
        NetModel { seats: self.seats.update(seat, s), ..self }
    }

    /// Both seats have to consent again.
    pub open spec fn unready(self) -> NetModel {
        NetModel {
            seats: seq![
                SeatModel { ready: false, ..self.seats[0] },
                SeatModel { ready: false, ..self.seats[1] },
            ],
            ..self
        }
    }

    pub open spec fn both_ready(self) -> bool {
        self.seats[0].ready && self.seats[1].ready
    }

    pub open spec fn labels(self) -> Seq<Seq<char>> {
        seq![self.seats[0].label, self.seats[1].label]
    }

    /// After an event of the host. `agent_id` is the session's own agent.
    pub open spec fn after_event(self, agent_id: Seq<char>, ev: EventView, now: nat) -> NetModel {
        match ev {
            EventView::Write { agent, path, bytes, .. } => NetModel {
                fleet: with_card(
                    self.fleet,
                    CardModel { id: agent, status: "write "@ + path, needs_signoff: false },
                ),
                ..self
            }.logged(now, agent + " wrote "@ + path + " ("@ + decimal_spec(bytes) + "B)"@),
            EventView::Command { agent, task, command, exit_code } => NetModel {
                fleet: with_card(
                    self.fleet,
                    CardModel {
                        id: agent,
                        status: "run "@ + first_forty(command),
                        needs_signoff: false,
                    },
                ),
                last_cmd: self.last_cmd.insert(task, CmdModel { command, exit_code }),
                ..self
            }.logged(
                now,
                if exit_code == 0 {
                    agent + " ran "@ + first_forty(command) + " · exit 0"@
                } else {
                    agent + " ran "@ + first_forty(command) + " · FAILED exit "@
                        + signed_decimal_spec(exit_code as int)
                },
            ),
            EventView::GateOpened { gate_id, .. } => NetModel {
                fleet: with_card(
                    self.fleet,
                    CardModel { id: agent_id, status: "▶ needs sign-off"@, needs_signoff: true },
                ),
                ..self
            }.logged(now, "gate "@ + gate_id + " parked at merge gate"@),
            EventView::GateResolved { .. } => NetModel {
                fleet: with_status(
                    self.fleet,
                    CardModel { id: agent_id, status: "working"@, needs_signoff: false },
                ),
                ..self
            },
            EventView::GateSuperseded { old_gate_id, new_gate_id } => self.logged(
                now,
                "gate "@ + old_gate_id + " superseded by hand-edit → "@ + new_gate_id,
            ),
            EventView::PlanProposed { agent, tasks } => NetModel {
                agent_plan: Some(tasks),
                fleet: with_card(
                    self.fleet,
                    CardModel {
                        id: agent,
                        status: "plan: "@ + decimal_spec(tasks.len())
                            + " task(s) awaiting approval"@,
                        needs_signoff: true,
                    },
                ),
                ..self
            }.logged(now, "agent proposed "@ + decimal_spec(tasks.len()) + " tasks"@),
            EventView::PlanSteered { steer } => self.logged(
                now,
                "plan steer routed to agent: "@ + first_forty(steer),
            ),
            EventView::QuestionsAsked { agent, questions } => NetModel {
                clarify: Some(exchange_of(questions)),
                phase: PhaseModel::Clarify,
                fleet: with_status(
                    self.fleet,
                    CardModel {
                        id: agent,
                        status: "awaiting "@ + decimal_spec(questions.len())
                            + " clarification answer(s)"@,
                        needs_signoff: true,
                    },
                ),
                ..self
            }.logged(
                now,
                "agent asked "@ + decimal_spec(questions.len()) + " clarification question(s)"@,
            ),
            EventView::SessionAbandoned => self,
        }
    }

    /// After a seat has dropped: its gates park.
    pub open spec fn after_disconnect(self, seat: int, now: nat) -> NetModel {
        NetModel {
            seats: self.seats.update(
                seat,
                SeatModel { linked: false, afk: false, ..self.seats[seat] },
            ),
            claim: match self.claim {
                Some(c) => if c.1 == seat {
                    None
                } else {
                    self.claim
                },
                None => None,
            },
            ..self
        }.logged(now, self.seats[seat].label + " disconnected · gates park"@)
    }

    /// After a seat has linked. Both linked for the first time opens the
    /// dispatch gate.
    pub open spec fn after_link(self, seat: int, now: nat) -> NetModel {
        let linked = self.with_seat(seat, SeatModel { linked: true, ..self.seats[seat] });
        if linked.phase is AwaitOperators && linked.seats[0].linked && linked.seats[1].linked {
            NetModel { phase: PhaseModel::DispatchReady, ..linked }.logged(
                now,
                "both stations linked"@,
            )
        } else {
            linked
        }
    }

    /// After a seat has taken a claim on a gate, or released its own.
    pub open spec fn after_claim(self, seat: nat, gate_id: Seq<char>, now: nat) -> NetModel {
        let label = self.seats[seat as int].label;
        if self.claim == Some((gate_id, seat)) {
            NetModel { claim: None, ..self }.logged(now, label + " released "@ + gate_id)
        } else {
            NetModel { claim: Some((gate_id, seat)), ..self }.logged(
                now,
                label + " is reviewing "@ + gate_id,
            )
        }
    }

    /// The notes on a gate.
    pub open spec fn notes(self, gate_id: Seq<char>) -> Seq<(nat, Seq<char>)> {
        if self.discuss.contains_key(gate_id) {
            self.discuss[gate_id]
        } else {
            seq![]
        }
    }

    /// After a note on a gate; a blank one is dropped.
    pub open spec fn after_note(
        self,
        seat: nat,
        gate_id: Seq<char>,
        text: Seq<char>,
        now: nat,
    ) -> NetModel {
        let note = trimmed(text);
        if note.len() == 0 {
            self
        } else {
            NetModel {
                discuss: self.discuss.insert(gate_id, self.notes(gate_id).push((seat, note))),
                ..self
            }.logged(
                now,
                self.seats[seat as int].label + " noted on "@ + gate_id + ": "@ + note,
            )
        }
    }

    /// After a seat has said whether it is away.
    pub open spec fn after_afk(self, seat: int, afk: bool, now: nat) -> NetModel {
        if self.seats[seat].afk == afk {
            self
        } else {
            self.with_seat(seat, SeatModel { afk, ..self.seats[seat] }).logged(
                now,
                self.seats[seat].label + " is "@ + (if afk {
                    "AFK"@
                } else {
                    "back"@
                }),
            )
        }
    }

    /// The plan that counts: what the agent proposed, or the configured one.
    pub open spec fn effective_plan(self, configured: Seq<Seq<char>>) -> Seq<Seq<char>> {
        match self.agent_plan {
            Some(tasks) => tasks,
            None => configured,
        }
    }

    /// What a station is shown of the phase.
    pub open spec fn phase_shown(self, configured: Seq<Seq<char>>, p: WirePhase) -> bool {
        match self.phase {
            PhaseModel::AwaitOperators => p is AwaitOperators,
            PhaseModel::DispatchReady => p matches WirePhase::DispatchReady { prompt } && prompt@
                == self.prompt,
            PhaseModel::PlanReview => p matches WirePhase::PlanReview { tasks } && texts(tasks@)
                == self.effective_plan(configured),
            PhaseModel::Clarify => p matches WirePhase::Clarify { questions } && (
            match self.clarify {
                None => questions@.len() == 0,
                Some(exchange) => questions@.len() == exchange.states.len() && forall|q: int|
                    0 <= q < questions@.len() ==> question_shown(
                        exchange,
                        q,
                        #[trigger] questions@[q],
                    ),
            }),
            PhaseModel::Executing => p is Executing,
            PhaseModel::Closed { gates, chain_verified, reviewers, merged, abandoned } => p matches WirePhase::Closed {
                gates: g,
                chain_verified: c,
                reviewers: r,
                merged: m,
                abandoned: a,
            } && g == gates && c == chain_verified && texts(r@) == reviewers && m == merged && a
                == abandoned,
        }
    }

    /// What a station is shown of a gate.
    pub open spec fn gate_shown(self, gate: GateModel, g: WireGate, diff: Option<Seq<u8>>) -> bool {
        &&& g.gate_id@ == gate.hold.gate_id
        &&& g.task@ == gate.hold.task_id
        &&& texts(g.files@) == gate.provenance.files
        &&& g.loc == gate.provenance.loc
        &&& g.diff_hash.0@ == gate.hold.diff_hash
        &&& g.keys@ == gate.hold.observed()
        &&& g.escalation_required == gate.escalation_required
        &&& file_diff_models(g.file_diffs@) == shown_diffs(diff, gate.provenance.files)
        &&& g.diff_truncated == (exists|i: int|
            0 <= i < g.file_diffs@.len() && (#[trigger] g.file_diffs@[i]).truncated)
        &&& match g.last_cmd {
            None => !self.last_cmd.contains_key(gate.hold.task_id),
            Some(cmd) => self.last_cmd.contains_key(gate.hold.task_id)
                && self.last_cmd[gate.hold.task_id] == (CmdModel {
                command: cmd.command@,
                exit_code: cmd.exit_code,
            }),
        }
        &&& g.agent@ == gate.provenance.agent_id
        &&& match self.claim {
            Some((claimed, seat)) => if claimed == gate.hold.gate_id {
                g.claimed_by matches Some(who) && who@ == self.seats[seat as int].label
            } else {
                g.claimed_by is None
            },
            None => g.claimed_by is None,
        }
        &&& g.discuss@.len() == self.notes(gate.hold.gate_id).len()
        &&& forall|i: int|
            0 <= i < g.discuss@.len() ==> {
                let note = self.notes(gate.hold.gate_id)[i];
                &&& (#[trigger] g.discuss@[i]).who@ == self.seats[note.0 as int].label
                &&& g.discuss@[i].text@ == note.1
            }
    }
}

/// How a session was configured.
#[verifier::ext_equal]
pub struct ConfigModel {
    pub prompt: Seq<char>,
    pub plan: Seq<Seq<char>>,
    /// The label and the key of each seat. A second seat with the zero key is
    /// open to an operator's own key, once the host approves it.
    pub seats: Seq<(Seq<char>, OperatorId)>,
}

/// What the stations share when a session starts.
pub open spec fn fresh_net(cfg: ConfigModel) -> NetModel {
    NetModel {
        phase: PhaseModel::AwaitOperators,
        seats: seq![
            SeatModel {
                label: cfg.seats[0].0,
                operator: cfg.seats[0].1,
                role: WireRole::Host,
                linked: false,
                ready: false,
                afk: false,
            },
            SeatModel {
                label: cfg.seats[1].0,
                operator: cfg.seats[1].1,
                role: WireRole::Operator,
                linked: false,
                ready: false,
                afk: false,
            },
        ],
        fleet: seq![],
        log: seq![],
        agent_done: false,
        finalizing: false,
        agent_plan: None,
        prompt: cfg.prompt,
        last_cmd: Map::empty(),
        claim: None,
        discuss: Map::empty(),
        clarify: None,
        seat_b_bound: None,
        pending_join: None,
    }
}

/// What a station is shown before anything has happened: the seats alone.
pub open spec fn first_shown(cfg: ConfigModel, w: WireState) -> bool {
    &&& w.phase is AwaitOperators
    &&& w.seats@.len() == 2
    &&& forall|i: int|
        0 <= i < 2 ==> seat_shown(fresh_net(cfg).seats[i], #[trigger] w.seats@[i])
    &&& w.fleet@.len() == 0
    &&& w.log@.len() == 0
    &&& w.gate is None
    &&& w.prompt@.len() == 0
    &&& w.pending_join is None
}

/// A session as its server keeps it.
pub struct ServerModel {
    pub host: HostModel,
    pub cfg: ConfigModel,
    pub net: NetModel,
    /// What both stations were last shown.
    pub wire: WireState,
    /// The scripted agent may start.
    pub plan_approved: bool,
    pub join: JoinDecision,
}

impl ServerModel {
    /// What holds of every session.
    pub open spec fn valid(self) -> bool {
        &&& self.host.valid()
        &&& self.net.valid()
        &&& self.cfg.seats.len() == 2
    }

    pub open spec fn with_net(self, net: NetModel) -> ServerModel {
        ServerModel { net, ..self }
    }

    /// The plan that counts.
    pub open spec fn effective_plan(self) -> Seq<Seq<char>> {
        self.net.effective_plan(self.cfg.plan)
    }

    /// After a seat has marked itself ready. Both ready moves the session on:
    /// from dispatch to plan review with the exact prompt both seats see, from
    /// plan review to execution with the exact plan; an empty prompt or plan is
    /// refused, and both have to consent again.
    pub open spec fn after_ready(self, seat: int, now: nat) -> ServerModel {
        let net = self.net.with_seat(seat, SeatModel { ready: true, ..self.net.seats[seat] });
        if net.both_ready() && net.phase is DispatchReady {
            if trimmed(net.prompt).len() == 0 {
                self.with_net(net.unready().logged(now, "prompt is empty — compose with [p]"@))
            } else {
                ServerModel {
                    net: NetModel { phase: PhaseModel::PlanReview, ..net.unready() }.logged(
                        now,
                        "dispatch confirmed · plan review"@,
                    ),
                    host: HostModel {
                        ctx: ContextView { prompt: net.prompt, ..self.host.ctx },
                        ..self.host
                    },
                    ..self
                }
            }
        } else if net.both_ready() && net.phase is PlanReview {
            if self.effective_plan().len() == 0 {
                self.with_net(net.unready().logged(now, "waiting for agent plan"@))
            } else {
                ServerModel {
                    net: NetModel { phase: PhaseModel::Executing, ..net.unready() }.logged(
                        now,
                        "plan approved · executing"@,
                    ),
                    host: HostModel {
                        plan: if self.host.abandoned {
                            self.host.plan
                        } else {
                            Some(self.effective_plan())
                        },
                        plan_decisions: self.host.plan_decisions.update(
                            self.host.plan_decisions.len() - 1,
                            PlanDecision::Approved,
                        ),
                        ..self.host
                    },
                    plan_approved: true,
                    ..self
                }
            }
        } else {
            self.with_net(net)
        }
    }

    /// After a seat has committed a prompt during dispatch composition.
    pub open spec fn after_prompt(self, seat: int, prompt: Seq<char>, now: nat) -> ServerModel {
        ServerModel {
            net: NetModel { prompt, ..self.net.unready() }.logged(
                now,
                self.net.seats[seat].label + " edited the prompt"@,
            ),
            host: HostModel { ctx: ContextView { prompt, ..self.host.ctx }, ..self.host },
            ..self
        }
    }

    /// After a seat has edited the plan during plan review.
    pub open spec fn after_plan_edit(
        self,
        seat: int,
        tasks: Seq<Seq<char>>,
        now: nat,
    ) -> ServerModel {
        self.with_net(
            NetModel { agent_plan: Some(tasks), ..self.net.unready() }.logged(
                now,
                self.net.seats[seat].label + " edited the plan ("@ + decimal_spec(tasks.len())
                    + " tasks)"@,
            ),
        )
    }

    /// After a seat has steered a replan during plan review: the plan is
    /// withdrawn until the agent proposes again.
    pub open spec fn after_steer(self, seat: int, steer: String, now: nat) -> ServerModel {
        ServerModel {
            net: NetModel { agent_plan: None, ..self.net.unready() }.logged(
                now,
                self.net.seats[seat].label + " steered a replan"@,
            ),
            host: if self.host.abandoned {
                self.host
            } else {
                HostModel {
                    plan_decisions: self.host.plan_decisions.update(
                        self.host.plan_decisions.len() - 1,
                        PlanDecision::Steered(steer),
                    ),
                    events: self.host.events.push(EventView::PlanSteered { steer: steer@ }),
                    ..self.host
                }
            },
            ..self
        }
    }

    /// After a seat's answer to a clarification question. When every question
    /// is settled the accepted answers go to the agent and the session waits
    /// for its plan.
    pub open spec fn after_answer(
        self,
        seat: nat,
        question: int,
        choice: Choice,
        now: nat,
    ) -> ServerModel {
        match self.net.clarify {
            None => self,
            Some(exchange) => {
                let next = exchange.after(seat, question, choice);
                if next.done() {
                    ServerModel {
                        net: NetModel {
                            clarify: None,
                            phase: PhaseModel::PlanReview,
                            ..self.net
                        }.logged(now, "clarification resolved · awaiting agent plan"@),
                        host: HostModel {
                            clarify_decisions: self.host.clarify_decisions.update(
                                self.host.clarify_decisions.len() - 1,
                                Some(next.answers()),
                            ),
                            ..self.host
                        },
                        ..self
                    }
                } else {
                    self.with_net(NetModel { clarify: Some(next), ..self.net })
                }
            },
        }
    }

    /// After a verdict that the review gate took, with `host` the session afterwards.
    pub open spec fn after_cast(
        self,
        seat: int,
        gate_id: Seq<char>,
        state: HoldState,
        host: HostModel,
        now: nat,
    ) -> ServerModel {
        let cast = self.net.logged(now, self.net.seats[seat].label + " cast · sealed"@);
        ServerModel {
            net: match state {
                HoldState::Satisfied => cast.logged(
                    now,
                    "gate "@ + gate_id + " · both keys in · accepted"@,
                ),
                HoldState::Blocked => cast.logged(
                    now,
                    "gate "@ + gate_id + " · no-go · remedy routed to agent"@,
                ),
                _ => cast,
            },
            host,
            ..self
        }
    }

    /// Does persisting the audit chain write anything?
    pub open spec fn persists(self) -> bool {
        self.host.audit_home is Some && self.host.chain.len() > 0
    }

    /// The audit chain was handed to the workspace in this call.
    pub open spec fn audit_call(self, call: WorkspaceCall) -> bool {
        &&& call matches WorkspaceCall::Audit { dir, name, records, .. }
        &&& self.host.audit_home == Some(dir)
        &&& name == audit_name(head_of(self.host.chain))
        &&& records == self.host.chain
    }

    /// After the audit chain was handed to the workspace, where it has a home
    /// for it: the log says where it went, or that it did not.
    pub open spec fn after_audit(self, call: WorkspaceCall, now: nat) -> ServerModel {
        if self.persists() {
            ServerModel {
                host: self.host.called(call),
                net: match call {
                    WorkspaceCall::Audit { result: Ok(path), .. } => self.net.logged(
                        now,
                        "audit chain written · "@ + path@,
                    ),
                    WorkspaceCall::Audit { result: Err(words), .. } => self.net.logged(
                        now,
                        "AUDIT WRITE FAILED: "@ + words@,
                    ),
                    _ => self.net,
                },
                ..self
            }
        } else {
            self
        }
    }

    /// The message of the merge commit: the instruction, who reviewed, and the
    /// head of the audit chain.
    pub open spec fn merge_message(self) -> Seq<char> {
        let lines = lines_spec(self.net.prompt);
        let first = if lines.len() > 0 {
            lines[0]
        } else {
            self.net.prompt
        };
        "kontur session: "@ + first + "\n\nReviewed-by: "@ + self.net.seats[0].label + " "@
            + hex_spec(self.net.seats[0].operator.0@.take(8)) + "\nReviewed-by: "@
            + self.net.seats[1].label + " "@ + hex_spec(self.net.seats[1].operator.0@.take(8))
            + "\nAudit-chain: sha256:"@ + hex_spec(head_of(self.host.chain))
    }

    /// A closed session. Its chain verifies.
    pub open spec fn closed(self, merged: bool, abandoned: bool) -> ServerModel {
        self.with_net(
            NetModel {
                phase: PhaseModel::Closed {
                    gates: self.host.chain.len(),
                    chain_verified: true,
                    reviewers: self.net.labels(),
                    merged,
                    abandoned,
                },
                ..self.net
            },
        )
    }

    /// After the merge call at the end of a session.
    pub open spec fn after_merge(self, call: WorkspaceCall, now: nat) -> ServerModel {
        let called = ServerModel { host: self.host.called(call), ..self };
        match call {
            WorkspaceCall::Merge { result: Err(e), .. } => {
                let failed = called.with_net(
                    called.net.logged(now, "merge error: "@ + GateHostError::Workspace(e).words()),
                ).closed(false, false);
                failed.with_net(failed.net.logged(now, "session closed"@))
            },
            _ => {
                let done = called.closed(true, false);
                done.with_net(done.net.logged(now, "session closed"@))
            },
        }
    }

    /// Everything is done and nothing pends.
    pub open spec fn ready_to_close(self) -> bool {
        &&& self.net.phase is Executing
        &&& self.net.agent_done
        &&& !self.net.finalizing
        &&& pending_of(self.host.gates).len() == 0
    }

    /// The session was merged and closed, the calls in `after` telling how.
    pub open spec fn finalized(self, after: ServerModel, now: nat) -> bool {
        let claimed = self.with_net(NetModel { finalizing: true, ..self.net });
        let audit = after.host.calls[self.host.calls.len() as int];
        let persisted = claimed.after_audit(audit, now);
        let merge = after.host.calls.last();
        let end = persisted.after_merge(merge, now);
        &&& self.persists() ==> self.audit_call(audit)
        &&& merge matches WorkspaceCall::Merge { message, .. }
        &&& message == self.merge_message()
        &&& after == (ServerModel { wire: after.wire, ..end })
        &&& end.shown_on(after.wire, None)
    }

    /// Both stations see the session as it is. With a gate pending, its diff
    /// was frozen once more for them to see.
    pub open spec fn rebuilt(self, after: ServerModel) -> bool {
        let pending = pending_of(self.host.gates);
        if pending.len() == 0 {
            &&& after == (ServerModel { wire: after.wire, ..self })
            &&& self.shown_on(after.wire, None)
        } else {
            let call = after.host.calls.last();
            &&& call matches WorkspaceCall::Freeze { task, result }
            &&& task == pending[0].hold.task_id
            &&& after == (ServerModel { wire: after.wire, host: self.host.called(call), ..self })
            &&& self.shown_on(
                after.wire,
                match result {
                    Ok(frozen) => Some(frozen.bytes@),
                    Err(_) => None,
                },
            )
        }
    }

    /// After a refresh: the session closes where everything is done, and both
    /// stations see where it stands.
    pub open spec fn refreshed(self, after: ServerModel, now: nat) -> bool {
        if self.ready_to_close() {
            self.finalized(after, now)
        } else {
            self.rebuilt(after)
        }
    }

    /// The state that both stations are shown, given the frozen diff of the
    /// first pending gate.
    pub open spec fn shown_on(self, w: WireState, diff: Option<Seq<u8>>) -> bool {
        &&& self.net.phase_shown(self.cfg.plan, w.phase)
        &&& w.seats@.len() == 2
        &&& forall|i: int| 0 <= i < 2 ==> seat_shown(self.net.seats[i], #[trigger] w.seats@[i])
        &&& w.fleet@.len() == self.net.fleet.len()
        &&& forall|i: int|
            0 <= i < w.fleet@.len() ==> self.net.fleet[i] == (CardModel {
                id: (#[trigger] w.fleet@[i]).id@,
                status: w.fleet@[i].status@,
                needs_signoff: w.fleet@[i].needs_signoff,
            })
        &&& texts(w.log@) == self.net.log
        &&& w.prompt@ == self.net.prompt
        &&& match self.net.pending_join {
            None => w.pending_join is None,
            Some(op) => w.pending_join matches Some(j) && j.operator == op && j.fingerprint@
                == hex_spec(op.0@.take(8)),
        }
        &&& match w.gate {
            None => pending_of(self.host.gates).len() == 0,
            Some(g) => pending_of(self.host.gates).len() > 0 && self.net.gate_shown(
                pending_of(self.host.gates)[0],
                g,
                diff,
            ),
        }
    }
}

pub open spec fn seat_shown(s: SeatModel, w: WireSeat) -> bool {
    s == (SeatModel {
        label: w.label@,
        operator: w.operator,
        role: w.role,
        linked: w.linked,
        ready: w.ready,
        afk: w.afk,
    })
}

/// What a station is shown of a question.
pub open spec fn question_shown(exchange: ClarifyView, q: int, w: WireQuestion) -> bool {
    let state = exchange.states[q];
    &&& w.prompt@ == exchange.prompt(q)
    &&& texts(w.options@) == state.options()
    &&& w.allows_custom == (state is Collecting)
    &&& forall|seat: int|
        0 <= seat < 2 ==> match state.pick(seat as nat) {
            None => (#[trigger] w.picks@[seat]) is None,
            Some(t) => w.picks@[seat] matches Some(s) && s@ == t,
        }
    &&& match state {
        QuestionState::Resolved(answers) => w.resolved matches Some(v) && texts(v@) == answers,
        _ => w.resolved is None,
    }
}

/// The path, the text and the cap of each file's section.
pub open spec fn file_diff_models(v: Seq<WireFileDiff>) -> Seq<(Seq<char>, Seq<char>, bool)> {
    v.map_values(|d: WireFileDiff| (d.path@, d.diff@, d.truncated))
}

/// A file's section. One of more than `cap` bytes is cut after the last
/// character that fits, and a note says so.
pub open spec fn capped(section: (Seq<char>, Seq<char>), cap: nat) -> (Seq<char>, Seq<char>, bool) {
    if vstd::utf8::encode_utf8(section.1).len() > cap {
        (
            section.0,
            section.1.take(fitting(section.1, cap) as int) + "\n… (diff truncated)"@,
            true,
        )
    } else {
        (section.0, section.1, false)
    }
}

/// The bytes that a station is shown of one file's section: 64 KiB.
pub const FILE_DIFF_CAP: usize = 65536;

/// What a text without sections is shown under: its only file, or all of them.
pub open spec fn whole_path(files: Seq<Seq<char>>) -> Seq<char> {
    if files.len() == 1 {
        files[0]
    } else {
        "(all files)"@
    }
}

/// The sections that a station is shown of a diff: none where it could not be
/// frozen or is no text.
pub open spec fn shown_diffs(
    diff: Option<Seq<u8>>,
    files: Seq<Seq<char>>,
) -> Seq<(Seq<char>, Seq<char>, bool)> {
    match diff {
        Some(bytes) => if vstd::utf8::valid_utf8(bytes) {
            split_or_whole_spec(vstd::utf8::decode_utf8(bytes), whole_path(files)).map_values(
                |section: (Seq<char>, Seq<char>)| capped(section, FILE_DIFF_CAP as nat),
            )
        } else {
            seq![]
        },
        None => seq![],
    }
}

/// One refusal, in these words.
pub open spec fn refused(replies: Seq<ServerMsg>, words: Seq<char>) -> bool {
    replies.len() == 1 && refusal_says(replies[0], words)
}

pub open spec fn refusal_says(m: ServerMsg, words: Seq<char>) -> bool {
    m matches ServerMsg::Rejected { reason } && reason@ == words
}

/// The contents of a file, or that there is no text to show.
pub open spec fn file_says(m: ServerMsg, path: Seq<char>, contents: Option<Seq<char>>) -> bool {
    &&& m matches ServerMsg::FileContent { path: p, contents: c }
    &&& p@ == path
    &&& match contents {
        Some(text) => c matches Some(t) && t@ == text,
        None => c is None,
    }
}

/// The replies to a fetched file. A file that is no text is not shown, and the
/// operator is told to edit it on the host.
pub open spec fn file_replies(
    replies: Seq<ServerMsg>,
    path: Seq<char>,
    result: Result<Option<Vec<u8>>, WorkspaceError>,
) -> bool {
    match result {
        Err(e) => refused(replies, e.words()),
        Ok(None) => replies.len() == 1 && file_says(replies[0], path, None),
        Ok(Some(bytes)) => if vstd::utf8::valid_utf8(bytes@) {
            replies.len() == 1 && file_says(
                replies[0],
                path,
                Some(vstd::utf8::decode_utf8(bytes@)),
            )
        } else {
            &&& replies.len() == 2
            &&& file_says(replies[0], path, None)
            &&& refusal_says(replies[1], "binary file — hand-edit on the host machine"@)
        },
    }
}

/// Is this a list that a plan can be replaced with?
pub open spec fn plan_is_filled(tasks: Seq<Seq<char>>) -> bool {
    tasks.len() > 0 && forall|i: int|
        0 <= i < tasks.len() ==> trimmed(#[trigger] tasks[i]).len() > 0
}

/// The choice that a message carries.
pub open spec fn choice_of(choice: WireChoice) -> Choice {
    match choice {
        WireChoice::Option(i) => Choice::Option(i),
        WireChoice::Custom(s) => Choice::Custom(s),
    }
}

impl ServerModel {
    /// Nothing happened but this refusal.
    pub open spec fn turns_down(
        self,
        replies: Seq<ServerMsg>,
        after: ServerModel,
        words: Seq<char>,
    ) -> bool {
        refused(replies, words) && after == self
    }

    /// This happened, both stations were shown it, and there is nothing to
    /// reply.
    pub open spec fn shows(
        self,
        replies: Seq<ServerMsg>,
        after: ServerModel,
        now: nat,
    ) -> bool {
        replies.len() == 0 && self.refreshed(after, now)
    }

    /// Nothing happened and there is nothing to reply.
    pub open spec fn ignores(self, replies: Seq<ServerMsg>, after: ServerModel) -> bool {
        replies.len() == 0 && after == self
    }

    /// After a verdict from a seat. A seat may only cast as itself.
    pub open spec fn cast_handled(
        self,
        seat: int,
        operator: OperatorId,
        gate_id: GateId,
        verdict: CastVerdict,
        now: nat,
        replies: Seq<ServerMsg>,
        after: ServerModel,
    ) -> bool {
        if verdict.operator != operator {
            self.turns_down(replies, after, "verdict identity does not match your seat"@)
        } else {
            exists|host: HostModel, r: Result<GateProgress, GateHostError>| #[trigger]
                self.host.verdict_given(gate_id, verdict, host, r) && match r {
                    Err(e) => refused(replies, e.words()) && after == (ServerModel {
                        host,
                        ..self
                    }),
                    Ok(progress) => self.after_cast(
                        seat,
                        gate_id@,
                        progress.state,
                        host,
                        now,
                    ).shows(replies, after, now),
                }
        }
    }

    /// After a hand-edit from a seat, which goes to the task of the first
    /// pending gate.
    pub open spec fn edit_handled(
        self,
        seat: int,
        operator: OperatorId,
        path: Seq<char>,
        contents: Seq<char>,
        now: nat,
        replies: Seq<ServerMsg>,
        after: ServerModel,
    ) -> bool {
        let pending = pending_of(self.host.gates);
        if pending.len() == 0 {
            self.turns_down(replies, after, "no active gate for hand-edit"@)
        } else {
            exists|host: HostModel, r: Result<(GateId, usize), GateHostError>| #[trigger]
                self.host.edit_made(
                    pending[0].hold.task_id,
                    path,
                    vstd::utf8::encode_utf8(contents),
                    operator,
                    host,
                    r,
                ) && match r {
                    Err(e) => refused(replies, e.words()) && after == (ServerModel {
                        host,
                        ..self
                    }),
                    Ok(_) => (ServerModel {
                        net: self.net.logged(
                            now,
                            self.net.seats[seat].label + " hand-edit "@ + path
                                + " · applied · fresh gate"@,
                        ),
                        host,
                        ..self
                    }).shows(replies, after, now),
                }
        }
    }

    /// After a seat has abandoned the session, with `host` and `r` what came of
    /// it there, and the audit chain handed over in the call `audit`.
    pub open spec fn after_abandon(
        self,
        seat: int,
        now: nat,
        host: HostModel,
        r: Result<(), GateHostError>,
        audit: WorkspaceCall,
    ) -> ServerModel {
        let claimed = NetModel { finalizing: true, ..self.net };
        let stopped = ServerModel {
            host,
            net: match r {
                Ok(_) => claimed,
                Err(e) => claimed.logged(now, "abandon error: "@ + e.words()),
            },
            ..self
        };
        let ended = stopped.after_audit(audit, now).closed(false, true);
        ended.with_net(
            ended.net.logged(
                now,
                self.net.seats[seat].label + " abandoned the session — nothing merged"@,
            ),
        )
    }

    /// After a seat has abandoned the session. A closed session stays as it is.
    /// Resolved gates are evidence even when nothing merges: the chain is
    /// persisted here too.
    pub open spec fn abandon_handled(
        self,
        seat: int,
        now: nat,
        replies: Seq<ServerMsg>,
        after: ServerModel,
    ) -> bool {
        if self.net.phase is Closed {
            self.ignores(replies, after)
        } else {
            exists|host: HostModel, r: Result<(), GateHostError>, audit: WorkspaceCall|
                {
                    &&& self.host.abandon_made(host, r)
                    &&& self.persists() ==> self.audit_call(audit)
                    &&& (#[trigger] self.after_abandon(seat, now, host, r, audit)).shows(
                        replies,
                        after,
                        now,
                    )
                }
        }
    }

    /// After a seat has fetched a file of the task under review.
    pub open spec fn fetch_handled(
        self,
        path: Seq<char>,
        replies: Seq<ServerMsg>,
        after: ServerModel,
    ) -> bool {
        let pending = pending_of(self.host.gates);
        if pending.len() == 0 {
            self.turns_down(replies, after, "no active gate — nothing to fetch"@)
        } else if self.host.abandoned {
            self.turns_down(replies, after, GateHostError::SessionAbandoned.words())
        } else {
            let call = after.host.calls.last();
            &&& call matches WorkspaceCall::Read { task, path: p, result }
            &&& task == pending[0].hold.task_id
            &&& p == path
            &&& after == (ServerModel { host: self.host.called(call), ..self })
            &&& file_replies(replies, path, result)
        }
    }

    /// After the host seat's decision on an operator's own key.
    pub open spec fn after_join_decision(
        self,
        operator: OperatorId,
        approve: bool,
        now: nat,
    ) -> ServerModel {
        ServerModel {
            join: if approve {
                JoinDecision::Approved(operator)
            } else {
                JoinDecision::Rejected(operator)
            },
            net: self.net.logged(
                now,
                "host "@ + (if approve {
                    "approved"@
                } else {
                    "rejected"@
                }) + " Operator B ("@ + hex_spec(operator.0@.take(8)) + ")"@,
            ),
            ..self
        }
    }

    /// A message of a seat was handled, with these replies to it and `after`
    /// the session afterwards. `operator` is who the seat's connection belongs
    /// to.
    pub open spec fn handled(
        self,
        seat: int,
        operator: OperatorId,
        msg: ClientMsg,
        now: nat,
        replies: Seq<ServerMsg>,
        after: ServerModel,
    ) -> bool {
        match msg {
            ClientMsg::Hello { .. } => self.ignores(replies, after),
            ClientMsg::Bye => self.ignores(replies, after),
            ClientMsg::Ping => replies == seq![ServerMsg::Pong] && after == self,
            ClientMsg::Ready => self.after_ready(seat, now).shows(replies, after, now),
            ClientMsg::Cast { gate_id, verdict } => self.cast_handled(
                seat,
                operator,
                gate_id,
                verdict,
                now,
                replies,
                after,
            ),
            ClientMsg::HandEdit { path, contents } => self.edit_handled(
                seat,
                operator,
                path@,
                contents@,
                now,
                replies,
                after,
            ),
            ClientMsg::Abandon => self.abandon_handled(seat, now, replies, after),
            ClientMsg::FetchFile { path } => self.fetch_handled(path@, replies, after),
            ClientMsg::Claim { gate_id } => self.with_net(
                self.net.after_claim(seat as nat, gate_id@, now),
            ).shows(replies, after, now),
            ClientMsg::Answer { question, choice } => if self.net.phase is Clarify
                && self.net.clarify is Some {
                self.after_answer(seat as nat, question as int, choice_of(choice), now).shows(
                    replies,
                    after,
                    now,
                )
            } else {
                self.ignores(replies, after)
            },
            ClientMsg::Discuss { gate_id, text } => if trimmed(text@).len() == 0 {
                self.ignores(replies, after)
            } else {
                self.with_net(self.net.after_note(seat as nat, gate_id@, text@, now)).shows(
                    replies,
                    after,
                    now,
                )
            },
            ClientMsg::ResolveJoin { operator: joining, approve } => if seat == 0 {
                self.after_join_decision(joining, approve, now).shows(replies, after, now)
            } else {
                self.ignores(replies, after)
            },
            ClientMsg::SetAfk { afk } => if self.net.seats[seat].afk == afk {
                self.ignores(replies, after)
            } else {
                self.with_net(self.net.after_afk(seat, afk, now)).shows(replies, after, now)
            },
            ClientMsg::EditPlan { tasks } => if !(self.net.phase is PlanReview) {
                self.turns_down(replies, after, "plan is locked"@)
            } else if !plan_is_filled(texts(tasks@)) {
                self.turns_down(replies, after, "plan tasks cannot be empty"@)
            } else {
                self.after_plan_edit(seat, texts(tasks@), now).shows(replies, after, now)
            },
            ClientMsg::SteerPlan { steer } => if !(self.net.phase is PlanReview) {
                self.turns_down(replies, after, "plan is locked"@)
            } else if trimmed(steer@).len() == 0 {
                self.turns_down(replies, after, "steer cannot be empty"@)
            } else {
                self.after_steer(seat, steer, now).shows(replies, after, now)
            },
            ClientMsg::SetPrompt { prompt } => if !(self.net.phase is DispatchReady) {
                self.turns_down(replies, after, "prompt is locked after dispatch"@)
            } else if trimmed(prompt@).len() == 0 {
                self.turns_down(replies, after, "prompt cannot be empty"@)
            } else {
                self.after_prompt(seat, prompt@, now).shows(replies, after, now)
            },
            ClientMsg::PromptDraft { prompt } => if !(self.net.phase is DispatchReady) {
                self.turns_down(replies, after, "prompt is locked after dispatch"@)
            } else {
                self.with_net(NetModel { prompt: prompt@, ..self.net.unready() }).shows(
                    replies,
                    after,
                    now,
                )
            },
        }
    }
}

/// The key that stands for none: it marks a seat that is open to an
/// operator's own key, and is never an identity.
pub open spec fn is_zero_key(op: OperatorId) -> bool {
    forall|i: int| 0 <= i < 32 ==> #[trigger] op.0@[i] == 0
}

/// What becomes of a connection's first message.
#[derive(Debug)]
pub enum Admission {
    /// The key is configured for this seat.
    Seated(usize),
    /// The key is an operator's own and needs the host's approval.
    OwnKey(OperatorId),
    Refused(String),
}

/// Why a first message is refused, if it is.
pub open spec fn first_refusal(msg: ClientMsg) -> Option<Seq<char>> {
    match msg {
        ClientMsg::Hello { operator, protocol, .. } => if protocol != PROTOCOL_VERSION {
            Some(
                "protocol mismatch — update kontur (server v"@ + decimal_spec(
                    PROTOCOL_VERSION as nat,
                ) + ", client v"@ + decimal_spec(protocol as nat) + ")"@,
            )
        } else if is_zero_key(operator) {
            Some("invalid operator identity"@)
        } else {
            None
        },
        _ => Some("first message must be Hello"@),
    }
}

impl ConfigModel {
    /// What becomes of a connection's first message: the version is looked at
    /// first, then the key. A key matching a configured seat is seated
    /// directly; any other is accepted only for a second seat that is open to
    /// one, and only after the host approves it.
    pub open spec fn admits(self, msg: ClientMsg, a: Admission) -> bool {
        match first_refusal(msg) {
            Some(words) => a matches Admission::Refused(reason) && reason@ == words,
            None => {
                let operator = msg->Hello_operator;
                if self.seats[0].1 == operator {
                    a == Admission::Seated(0)
                } else if self.seats[1].1 == operator {
                    a == Admission::Seated(1)
                } else if is_zero_key(self.seats[1].1) {
                    a == Admission::OwnKey(operator)
                } else {
                    a matches Admission::Refused(reason) && reason@
                        == "unknown operator (client seat: "@ + msg->Hello_seat@ + ")"@
                }
            },
        }
    }
}

/// What becomes of a request to join with an operator's own key.
#[derive(Debug)]
pub enum JoinStep {
    Seated(usize),
    /// The host has to approve the key with this fingerprint.
    Waiting { fingerprint: String },
    Refused(String),
}

impl ServerModel {
    /// An operator has asked to join with their own key. At most one distinct
    /// key awaits approval at a time, so the host is never shown one
    /// fingerprint while a different key is parked behind it.
    pub open spec fn join_requested(
        self,
        operator: OperatorId,
        now: nat,
        step: JoinStep,
        after: ServerModel,
    ) -> bool {
        if self.net.seat_b_bound == Some(operator) {
            step == JoinStep::Seated(1) && after == self
        } else if self.net.seat_b_bound is Some {
            &&& step matches JoinStep::Refused(reason)
            &&& reason@ == "seat B is already bound to a different key"@
            &&& after == self
        } else if self.net.pending_join is Some && self.net.pending_join != Some(operator) {
            &&& step matches JoinStep::Refused(reason)
            &&& reason@
                == "another operator is already awaiting approval — try again shortly"@
            &&& after == self
        } else {
            &&& step matches JoinStep::Waiting { fingerprint }
            &&& fingerprint@ == hex_spec(operator.0@.take(8))
            &&& self.with_net(
                NetModel { pending_join: Some(operator), ..self.net }.logged(
                    now,
                    "Operator B requests approval · fingerprint "@ + hex_spec(
                        operator.0@.take(8),
                    ),
                ),
            ).refreshed(after, now)
        }
    }

    /// What the host has decided about this key so far.
    pub open spec fn join_decision(self, operator: OperatorId) -> Option<bool> {
        match self.join {
            JoinDecision::Approved(op) => if op == operator {
                Some(true)
            } else {
                None
            },
            JoinDecision::Rejected(op) => if op == operator {
                Some(false)
            } else {
                None
            },
            JoinDecision::Pending => None,
        }
    }

    /// With nobody of this key waiting.
    pub open spec fn join_cleared(self, operator: OperatorId) -> NetModel {
        NetModel {
            pending_join: if self.net.pending_join == Some(operator) {
                None
            } else {
                self.net.pending_join
            },
            ..self.net
        }
    }

    /// After the wait for the host's decision is over. The first approval wins
    /// the seat: the key becomes the seat's identity and joins the roster. No
    /// decision by then means that the wait timed out.
    pub open spec fn after_join(self, operator: OperatorId) -> ServerModel {
        let net = self.join_cleared(operator);
        if self.join_decision(operator) == Some(true) && self.net.seat_b_bound is None {
            ServerModel {
                net: NetModel {
                    seat_b_bound: Some(operator),
                    ..net.with_seat(1, SeatModel { operator, ..net.seats[1] })
                },
                host: HostModel {
                    ctx: ContextView {
                        operators: if self.host.ctx.operators.contains(operator) {
                            self.host.ctx.operators
                        } else {
                            self.host.ctx.operators.push(operator)
                        },
                        ..self.host.ctx
                    },
                    ..self.host
                },
                ..self
            }
        } else {
            self.with_net(net)
        }
    }

    /// Who gets the second seat, or why not.
    pub open spec fn join_settled(self, operator: OperatorId, r: Result<usize, String>) -> bool {
        match self.join_decision(operator) {
            Some(true) => if self.net.seat_b_bound is None || self.net.seat_b_bound == Some(
                operator,
            ) {
                r == Ok::<usize, String>(1)
            } else {
                r matches Err(reason) && reason@
                    == "seat B is already bound to a different key"@
            },
            Some(false) => r matches Err(reason) && reason@ == "join rejected by host"@,
            None => r matches Err(reason) && reason@ == "approval timed out"@,
        }
    }
}

/// An exchange needs a question.
pub open spec fn asks_something(ev: EventView) -> bool {
    ev matches EventView::QuestionsAsked { questions, .. } ==> questions.len() > 0
}

impl ServerModel {
    /// An event of the host was taken in. That the session was abandoned
    /// changes nothing: the abandoning seat's message already has.
    pub open spec fn event_taken(self, ev: EventView, now: nat, after: ServerModel) -> bool {
        if ev is SessionAbandoned {
            after == self
        } else {
            self.with_net(self.net.after_event(self.host.ctx.agent_id, ev, now)).refreshed(
                after,
                now,
            )
        }
    }

    /// These events were taken in one by one, from here to `after`.
    pub open spec fn takes_in(
        self,
        events: Seq<EventView>,
        now: nat,
        after: ServerModel,
    ) -> bool
        decreases events.len(),
    {
        if events.len() == 0 {
            after == self
        } else {
            exists|last: ServerModel|
                self.takes_in(events.drop_last(), now, last) && #[trigger] last.event_taken(
                    events.last(),
                    now,
                    after,
                )
        }
    }

    /// The events of the host were handed over, oldest first, and taken in.
    pub open spec fn pumped(self, now: nat, after: ServerModel) -> bool {
        let drained = ServerModel {
            host: HostModel { events: seq![], ..self.host },
            ..self
        };
        drained.takes_in(self.host.events, now, after)
    }
}

/// One more event.
pub proof fn taking_in_goes_on(
    first: ServerModel,
    events: Seq<EventView>,
    now: nat,
    last: ServerModel,
    ev: EventView,
    after: ServerModel,
)
    requires
        first.takes_in(events, now, last),
        last.event_taken(ev, now, after),
    ensures
        first.takes_in(events.push(ev), now, after),
{
    assert(events.push(ev).drop_last() =~= events);
    assert(last.event_taken(events.push(ev).last(), now, after));
}

} // verus!
