//! What the two stations share beside the gates.
use vstd::prelude::*;

use crate::clarify::{Clarify, Question};
use crate::gatehost::model::{asked_views, ClarifyQuestion, EventView, HostEvent};
use crate::ids::{GateId, OperatorId};
use crate::protocol::{WireCmd, WireFleetCard, WireRole};
use crate::server::model::{
    card_index, exchange_of, first_forty, with_card, with_status, CardModel, CmdModel, NetModel,
    PhaseModel, SeatModel,
};
use crate::table::TextMap;
use crate::text::{
    chars_of, copy_texts, decimal, decimal_padded, signed_decimal, text_of, texts, trim,
};

verus! {

/// Where a session stands.
#[derive(PartialEq, Eq, Debug)]
pub enum Phase {
    AwaitOperators,
    DispatchReady,
    PlanReview,
    Clarify,
    Executing,
    Closed {
        gates: usize,
        chain_verified: bool,
        reviewers: Vec<String>,
        merged: bool,
        abandoned: bool,
    },
}

impl View for Phase {
    type V = PhaseModel;

    open spec fn view(&self) -> PhaseModel {
        match self {
            Phase::AwaitOperators => PhaseModel::AwaitOperators,
            Phase::DispatchReady => PhaseModel::DispatchReady,
            Phase::PlanReview => PhaseModel::PlanReview,
            Phase::Clarify => PhaseModel::Clarify,
            Phase::Executing => PhaseModel::Executing,
            Phase::Closed { gates, chain_verified, reviewers, merged, abandoned } => PhaseModel::Closed {
                gates: *gates as nat,
                chain_verified: *chain_verified,
                reviewers: texts(reviewers@),
                merged: *merged,
                abandoned: *abandoned,
            },
        }
    }
}

#[derive(Debug)]
pub struct SeatState {
    pub label: String,
    pub operator: OperatorId,
    pub role: WireRole,
    pub linked: bool,
    pub ready: bool,
    pub afk: bool,
}

impl View for SeatState {
    type V = SeatModel;

    open spec fn view(&self) -> SeatModel {
        SeatModel {
            label: self.label@,
            operator: self.operator,
            role: self.role,
            linked: self.linked,
            ready: self.ready,
            afk: self.afk,
        }
    }
}

/// What a card says.
pub open spec fn card_model(c: WireFleetCard) -> CardModel {
    CardModel { id: c.id@, status: c.status@, needs_signoff: c.needs_signoff }
}

pub open spec fn card_models(v: Seq<WireFleetCard>) -> Seq<CardModel> {
    v.map_values(|c: WireFleetCard| card_model(c))
}

/// What a command was and how it ended.
pub open spec fn cmd_model(c: WireCmd) -> CmdModel {
    CmdModel { command: c.command@, exit_code: c.exit_code }
}

/// The notes on a gate, with the seat that made each.
pub open spec fn note_models(v: Seq<(usize, String)>) -> Seq<(nat, Seq<char>)> {
    v.map_values(|n: (usize, String)| (n.0 as nat, n.1@))
}

/// What the two stations share beside the gates.
#[derive(Debug)]
pub struct Net {
    pub phase: Phase,
    pub seats: Vec<SeatState>,
    pub fleet: Vec<WireFleetCard>,
    pub log: Vec<String>,
    pub agent_done: bool,
    pub finalizing: bool,
    pub agent_plan: Option<Vec<String>>,
    /// Live session prompt. Starts as configured; edited during dispatch
    /// composition. After dispatch it is locked: the agent is running against
    /// the text that was actually consented to.
    pub prompt: String,
    /// Most recent command and exit code per task id, for the card of its gate.
    pub last_cmd: TextMap<WireCmd>,
    /// Soft presence claim on the active gate: gate id and seat.
    pub claim: Option<(String, usize)>,
    /// Gate discussion notes, keyed by gate id: seat and text, in order.
    pub discuss: TextMap<Vec<(usize, String)>>,
    /// Active clarification exchange, while the agent is awaiting answers.
    pub clarify: Option<Clarify>,
    /// The operator key bound at approval to a seat open to any operator.
    pub seat_b_bound: Option<OperatorId>,
    /// An operator's own key currently awaiting the host's approval.
    pub pending_join: Option<OperatorId>,
}

impl View for Net {
    type V = NetModel;

    open spec fn view(&self) -> NetModel {
        NetModel {
            phase: self.phase@,
            seats: self.seats@.map_values(|s: SeatState| s@),
            fleet: card_models(self.fleet@),
            log: texts(self.log@),
            agent_done: self.agent_done,
            finalizing: self.finalizing,
            agent_plan: match self.agent_plan {
                Some(tasks) => Some(texts(tasks@)),
                None => None,
            },
            prompt: self.prompt@,
            last_cmd: self.last_cmd@.map_values(|c: WireCmd| cmd_model(c)),
            claim: match self.claim {
                Some(c) => Some((c.0@, c.1 as nat)),
                None => None,
            },
            discuss: self.discuss@.map_values(|v: Vec<(usize, String)>| note_models(v@)),
            clarify: match self.clarify {
                Some(c) => Some(c@),
                None => None,
            },
            seat_b_bound: self.seat_b_bound,
            pending_join: self.pending_join,
        }
    }
}

impl Net {
    pub open spec fn wf(&self) -> bool {
        self@.valid()
    }

    /// Append a line to the log, under the minutes and seconds since the
    /// session started. The log keeps its last eight lines.
    pub fn push_log(&mut self, now: u64, text: &str)
        requires
            old(self).wf(),
        ensures
            final(self).wf(),
            final(self)@ == old(self)@.logged(now as nat, text@),
    {
        let ghost net = self@;
        let mm = decimal_padded(now / 60, 2);
        let ss = decimal_padded(now % 60, 2);
        let entry = mm.concat(":").concat(ss.as_str()).concat(" ").concat(text);
        self.log.push(entry);
        let ghost full = self.log@;
        while self.log.len() > 8
            invariant
                self.log@.len() <= full.len(),
                full.len() > 8 ==> self.log@.len() >= 8,
                full.len() <= 8 ==> self.log@ == full,
                self.log@ == full.skip(full.len() - self.log@.len()),
                self@ == (NetModel { log: texts(self.log@), ..net }),
            decreases self.log.len(),
        {
            let _oldest = self.log.remove(0);
        }
    }

    /// Where the card with this id stands, or the number of cards.
    fn find_card(&self, id: &str) -> (r: usize)
        ensures
            r == card_index(self@.fleet, id@),
            r <= self.fleet@.len(),
            r < self.fleet@.len() ==> self.fleet@[r as int].id@ == id@,
    {
        let wanted = id.to_owned();
        let ghost fleet = self@.fleet;
        let mut i: usize = 0;
        assert(fleet.skip(0) =~= fleet);
        while i < self.fleet.len() && self.fleet[i].id != wanted
            invariant
                0 <= i <= self.fleet.len(),
                wanted@ == id@,
                fleet == self@.fleet,
                card_index(fleet, id@) == i + card_index(fleet.skip(i as int), id@),
            decreases self.fleet.len() - i,
        {
            assert(fleet.skip(i as int).skip(1) =~= fleet.skip(i as int + 1));
            i = i + 1;
        }
        i
    }

    /// Update a card in place or add it at the end.
    pub fn set_card(&mut self, card: WireFleetCard)
        requires
            old(self).wf(),
        ensures
            final(self).wf(),
            final(self)@ == (NetModel {
                fleet: with_card(old(self)@.fleet, card_model(card)),
                ..old(self)@
            }),
    {
        let at: usize = self.find_card(card.id.as_str());
        let ghost fleet = self@.fleet;
        if at < self.fleet.len() {
            self.fleet[at] = card;
        } else {
            self.fleet.push(card);
        }
    }

    /// Update a card in place, where there is one.
    pub fn update_card(&mut self, card: WireFleetCard)
        requires
            old(self).wf(),
        ensures
            final(self).wf(),
            final(self)@ == (NetModel {
                fleet: with_status(old(self)@.fleet, card_model(card)),
                ..old(self)@
            }),
    {
        let at: usize = self.find_card(card.id.as_str());
        let ghost fleet = self@.fleet;
        if at < self.fleet.len() {
            self.fleet[at] = card;
        }
    }

    /// Both seats have to consent again.
    pub fn reset_ready(&mut self)
        requires
            old(self).wf(),
        ensures
            final(self).wf(),
            final(self)@ == old(self)@.unready(),
    {
        self.seats[0].ready = false;
        self.seats[1].ready = false;
    }

    pub fn mark_ready(&mut self, seat: usize)
        requires
            old(self).wf(),
            seat < 2,
        ensures
            final(self).wf(),
            final(self)@ == old(self)@.with_seat(
                seat as int,
                SeatModel { ready: true, ..old(self)@.seats[seat as int] },
            ),
    {
        self.seats[seat].ready = true;
    }

    pub fn both_ready(&self) -> (r: bool)
        requires
            self.wf(),
        ensures
            r == self@.both_ready(),
    {
        self.seats[0].ready && self.seats[1].ready
    }

    pub fn label(&self, seat: usize) -> (r: String)
        requires
            self.wf(),
            seat < 2,
        ensures
            r@ == self@.seats[seat as int].label,
    {
        self.seats[seat].label.clone()
    }

    /// The labels of both seats.
    pub fn labels(&self) -> (r: Vec<String>)
        requires
            self.wf(),
        ensures
            texts(r@) == self@.labels(),
    {
        let mut r: Vec<String> = Vec::new();
        r.push(self.seats[0].label.clone());
        r.push(self.seats[1].label.clone());
        r
    }
}

/// The first forty characters.
fn shortened(s: &str) -> (r: String)
    ensures
        r@ == first_forty(s@),
{
    let v = chars_of(s);
    if v.len() > 40 {
        text_of(&v, 0, 40)
    } else {
        s.to_owned()
    }
}

/// The exchange over what the agent asked.
fn start_exchange(questions: Vec<ClarifyQuestion>) -> (r: Clarify)
    requires
        questions@.len() > 0,
    ensures
        r.wf(),
        r@ == exchange_of(asked_views(questions@)),
{
    let mut asked: Vec<Question> = Vec::new();
    let mut i: usize = 0;
    while i < questions.len()
        invariant
            0 <= i <= questions.len(),
            asked@.len() == i,
            forall|j: int|
                0 <= j < i ==> (#[trigger] asked@[j]).prompt@ == questions@[j].prompt@ && texts(
                    asked@[j].options@,
                ) == texts(questions@[j].options@),
        decreases questions.len() - i,
    {
        asked.push(
            Question {
                prompt: questions[i].prompt.clone(),
                options: copy_texts(&questions[i].options),
            },
        );
        i = i + 1;
    }
    Clarify::new(asked)
}

impl Net {
    /// A seat has linked. Both linked for the first time opens dispatch.
    pub fn link(&mut self, seat: usize, now: u64)
        requires
            old(self).wf(),
            seat < 2,
        ensures
            final(self).wf(),
            final(self)@ == old(self)@.after_link(seat as int, now as nat),
    {
        self.seats[seat].linked = true;
        let waiting = matches!(self.phase, Phase::AwaitOperators);
        if waiting && self.seats[0].linked && self.seats[1].linked {
            self.phase = Phase::DispatchReady;
            self.push_log(now, "both stations linked");
        }
    }

    /// A seat has dropped: its gates park. A dropped seat is not away from the
    /// keyboard, which is a distinct, present state; and its claim goes with it.
    pub fn disconnect(&mut self, seat: usize, now: u64)
        requires
            old(self).wf(),
            seat < 2,
        ensures
            final(self).wf(),
            final(self)@ == old(self)@.after_disconnect(seat as int, now as nat),
    {
        self.seats[seat].linked = false;
        self.seats[seat].afk = false;
        let drops = match &self.claim {
            Some(c) => c.1 == seat,
            None => false,
        };
        if drops {
            self.claim = None;
        }
        let line = self.label(seat).concat(" disconnected · gates park");
        self.push_log(now, line.as_str());
    }

    /// Take the claim on a gate, or release this seat's own.
    pub fn toggle_claim(&mut self, seat: usize, gate_id: &GateId, now: u64)
        requires
            old(self).wf(),
            seat < 2,
        ensures
            final(self).wf(),
            final(self)@ == old(self)@.after_claim(seat as nat, gate_id@, now as nat),
    {
        let held = match &self.claim {
            Some(c) => c.0 == gate_id.0 && c.1 == seat,
            None => false,
        };
        let label = self.label(seat);
        if held {
            self.claim = None;
            let line = label.concat(" released ").concat(gate_id.0.as_str());
            self.push_log(now, line.as_str());
        } else {
            self.claim = Some((gate_id.0.clone(), seat));
            let line = label.concat(" is reviewing ").concat(gate_id.0.as_str());
            self.push_log(now, line.as_str());
        }
    }

    /// Say whether a seat is away from the keyboard.
    pub fn set_afk(&mut self, seat: usize, afk: bool, now: u64)
        requires
            old(self).wf(),
            seat < 2,
        ensures
            final(self).wf(),
            final(self)@ == old(self)@.after_afk(seat as int, afk, now as nat),
    {
        if self.seats[seat].afk != afk {
            self.seats[seat].afk = afk;
            let label = self.label(seat).concat(" is ");
            let line = if afk {
                label.concat("AFK")
            } else {
                label.concat("back")
            };
            self.push_log(now, line.as_str());
        }
    }

    /// Add a note to a gate's discussion thread; a blank one is dropped.
    pub fn add_note(&mut self, seat: usize, gate_id: &GateId, text: &str, now: u64)
        requires
            old(self).wf(),
            seat < 2,
        ensures
            final(self).wf(),
            final(self)@ == old(self)@.after_note(seat as nat, gate_id@, text@, now as nat),
    {
        let note = trim(text);
        if note.as_str().is_empty() {
            return;
        }
        let ghost net = self@;
        let mut notes = match self.discuss.take(gate_id.0.as_str()) {
            Some(notes) => notes,
            None => Vec::new(),
        };
        let ghost before = note_models(notes@);
        assert(before =~= net.notes(gate_id@));
        notes.push((seat, note.clone()));
        assert(note_models(notes@) =~= before.push((seat as nat, note@)));
        self.discuss.insert(gate_id.0.clone(), notes);
        proof {
            assert forall|g: Seq<char>, i: int|
                self@.discuss.contains_key(g) && 0 <= i < self@.discuss[g].len() implies (
            #[trigger] self@.discuss[g][i]).0 < 2 by {
                if g == gate_id@ {
                } else {
                    assert(net.discuss[g][i].0 < 2);
                }
            }
        }
        let line = self.label(seat).concat(" noted on ").concat(gate_id.0.as_str()).concat(
            ": ",
        ).concat(note.as_str());
        self.push_log(now, line.as_str());
    }
}

impl Net {
    /// Take in an event of the host: update the fleet, the log and what the
    /// gate cards show. `agent_id` is the session's own agent.
    pub fn on_event(&mut self, agent_id: &str, ev: HostEvent, now: u64)
        requires
            old(self).wf(),
            ev@ matches EventView::QuestionsAsked { questions, .. } ==> questions.len() > 0,
        ensures
            final(self).wf(),
            final(self)@ == old(self)@.after_event(agent_id@, ev@, now as nat),
    {
        match ev {
            HostEvent::Write { agent, path, bytes, .. } => {
                self.set_card(
                    WireFleetCard {
                        id: agent.clone(),
                        status: "write ".to_owned().concat(path.as_str()),
                        needs_signoff: false,
                    },
                );
                let size = decimal(bytes as u64);
                let line = agent.concat(" wrote ").concat(path.as_str()).concat(" (").concat(
                    size.as_str(),
                ).concat("B)");
                self.push_log(now, line.as_str());
            },
            HostEvent::Command { agent, task, command, exit_code } => {
                self.on_command(agent, task.0, command, exit_code, now);
            },
            HostEvent::GateOpened { gate_id, .. } => {
                self.set_card(
                    WireFleetCard {
                        id: agent_id.to_owned(),
                        status: "▶ needs sign-off".to_owned(),
                        needs_signoff: true,
                    },
                );
                let line = "gate ".to_owned().concat(gate_id.0.as_str()).concat(
                    " parked at merge gate",
                );
                self.push_log(now, line.as_str());
            },
            HostEvent::GateResolved { .. } => {
                // The cast already logs the resolution; only the card changes.
                self.update_card(
                    WireFleetCard {
                        id: agent_id.to_owned(),
                        status: "working".to_owned(),
                        needs_signoff: false,
                    },
                );
            },
            HostEvent::GateSuperseded { old_gate_id, new_gate_id } => {
                let line = "gate ".to_owned().concat(old_gate_id.0.as_str()).concat(
                    " superseded by hand-edit → ",
                ).concat(new_gate_id.0.as_str());
                self.push_log(now, line.as_str());
            },
            HostEvent::PlanProposed { agent, tasks } => {
                let count = decimal(tasks.len() as u64);
                self.agent_plan = Some(tasks);
                self.set_card(
                    WireFleetCard {
                        id: agent,
                        status: "plan: ".to_owned().concat(count.as_str()).concat(
                            " task(s) awaiting approval",
                        ),
                        needs_signoff: true,
                    },
                );
                let line = "agent proposed ".to_owned().concat(count.as_str()).concat(" tasks");
                self.push_log(now, line.as_str());
            },
            HostEvent::PlanSteered { steer } => {
                let short = shortened(steer.as_str());
                let line = "plan steer routed to agent: ".to_owned().concat(short.as_str());
                self.push_log(now, line.as_str());
            },
            HostEvent::QuestionsAsked { agent, questions } => {
                let count = decimal(questions.len() as u64);
                self.clarify = Some(start_exchange(questions));
                self.phase = Phase::Clarify;
                self.update_card(
                    WireFleetCard {
                        id: agent,
                        status: "awaiting ".to_owned().concat(count.as_str()).concat(
                            " clarification answer(s)",
                        ),
                        needs_signoff: true,
                    },
                );
                let line = "agent asked ".to_owned().concat(count.as_str()).concat(
                    " clarification question(s)",
                );
                self.push_log(now, line.as_str());
            },
            HostEvent::SessionAbandoned => {
                // The abandoning seat's message already logs and closes.
            },
        }
    }

    /// A command has run. Outcome, not just invocation: a failed command is
    /// decision-relevant and must not read like a passing one.
    fn on_command(&mut self, agent: String, task: String, command: String, exit_code: i32, now: u64)
        requires
            old(self).wf(),
        ensures
            final(self).wf(),
            final(self)@ == old(self)@.after_event(
                seq![],
                EventView::Command { agent: agent@, task: task@, command: command@, exit_code },
                now as nat,
            ),
    {
        let short = shortened(command.as_str());
        self.set_card(
            WireFleetCard {
                id: agent.clone(),
                status: "run ".to_owned().concat(short.as_str()),
                needs_signoff: false,
            },
        );
        self.last_cmd.insert(task, WireCmd { command, exit_code });
        let ran = agent.concat(" ran ").concat(short.as_str());
        if exit_code == 0 {
            let line = ran.concat(" · exit 0");
            self.push_log(now, line.as_str());
        } else {
            let code = signed_decimal(exit_code);
            let line = ran.concat(" · FAILED exit ").concat(code.as_str());
            self.push_log(now, line.as_str());
        }
    }
}

/// What the stations share is seen whole: every seat, card, line, task, note and
/// claim, each as it is held.
pub proof fn shared_state_is_seen_whole(net: Net)
    ensures
        net@.seats.len() == net.seats@.len(),
        forall|i: int|
            0 <= i < net.seats@.len() ==> {
                &&& (#[trigger] net@.seats[i]).label == net.seats@[i].label@
                &&& net@.seats[i].operator == net.seats@[i].operator
                &&& net@.seats[i].role == net.seats@[i].role
                &&& net@.seats[i].linked == net.seats@[i].linked
                &&& net@.seats[i].ready == net.seats@[i].ready
                &&& net@.seats[i].afk == net.seats@[i].afk
            },
        net@.fleet.len() == net.fleet@.len(),
        forall|i: int|
            0 <= i < net.fleet@.len() ==> {
                &&& (#[trigger] net@.fleet[i]).id == net.fleet@[i].id@
                &&& net@.fleet[i].status == net.fleet@[i].status@
                &&& net@.fleet[i].needs_signoff == net.fleet@[i].needs_signoff
            },
        net@.log == texts(net.log@),
        net@.agent_done == net.agent_done,
        net@.finalizing == net.finalizing,
        net@.agent_plan is Some <==> net.agent_plan is Some,
        net.agent_plan matches Some(tasks) ==> net@.agent_plan == Some(texts(tasks@)),
        net@.prompt == net.prompt@,
        net@.claim is Some <==> net.claim is Some,
        net.claim matches Some(c) ==> net@.claim == Some((c.0@, c.1 as nat)),
        net@.clarify is Some <==> net.clarify is Some,
        net.clarify matches Some(c) ==> net@.clarify == Some(c@),
        net@.seat_b_bound == net.seat_b_bound,
        net@.pending_join == net.pending_join,
        forall|k: Seq<char>|
            #[trigger] net@.last_cmd.contains_key(k) <==> net.last_cmd@.contains_key(k),
        forall|k: Seq<char>| #[trigger]
            net.last_cmd@.contains_key(k) ==> net@.last_cmd[k].command
                == net.last_cmd@[k].command@ && net@.last_cmd[k].exit_code
                == net.last_cmd@[k].exit_code,
        forall|k: Seq<char>|
            #[trigger] net@.discuss.contains_key(k) <==> net.discuss@.contains_key(k),
        forall|k: Seq<char>, i: int|
            net.discuss@.contains_key(k) && 0 <= i < net.discuss@[k]@.len() ==> (
            #[trigger] net@.discuss[k][i]) == (
                net.discuss@[k]@[i].0 as nat,
                net.discuss@[k]@[i].1@,
            ),
        forall|k: Seq<char>| #[trigger]
            net.discuss@.contains_key(k) ==> net@.discuss[k].len() == net.discuss@[k]@.len(),
{
}

/// A phase is seen as it is held, with all that a closed session says.
pub proof fn phases_are_seen_as_held(phase: Phase)
    ensures
        phase is AwaitOperators <==> phase@ is AwaitOperators,
        phase is DispatchReady <==> phase@ is DispatchReady,
        phase is PlanReview <==> phase@ is PlanReview,
        phase is Clarify <==> phase@ is Clarify,
        phase is Executing <==> phase@ is Executing,
        phase is Closed <==> phase@ is Closed,
        phase matches Phase::Closed { gates, chain_verified, reviewers, merged, abandoned } ==> {
            &&& phase@->gates == gates
            &&& phase@->chain_verified == chain_verified
            &&& phase@->reviewers == texts(reviewers@)
            &&& phase@->merged == merged
            &&& phase@->abandoned == abandoned
        },
{
}

} // verus!
