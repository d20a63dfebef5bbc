//! What both stations are shown of a session.
use vstd::prelude::*;

use crate::clarify::Clarify;
use crate::difftext::{file_diff_views, split_file_diffs_or_whole, FileDiff};
use crate::gatehost::model::{GateModel, GateView};
use crate::protocol::{
    WireComment, WireFileDiff, WireFleetCard, WireGate, WirePendingJoin, WirePhase, WireQuestion,
    WireSeat,
};
use crate::server::model::{
    capped, file_diff_models, question_shown, seat_shown, shown_diffs, CardModel, FILE_DIFF_CAP,
};
use crate::server::net::{note_models, Net, Phase};
use crate::text::{chars_of, copy_texts, count_fitting, text_from_utf8, text_of, texts};

verus! {

/// Cap one file's diff section for the wire. Each file is capped
/// independently so a single huge generated file cannot starve the other
/// files' diffs or exhaust the connection buffer.
pub fn cap_file_diff(fd: FileDiff, cap: usize) -> (r: WireFileDiff)
    ensures
        (r.path@, r.diff@, r.truncated) == capped((fd.path@, fd.diff@), cap as nat),
{
    if fd.diff.as_str().as_bytes().len() > cap {
        let chars = chars_of(fd.diff.as_str());
        let fits: usize = count_fitting(&chars, cap);
        let kept = text_of(&chars, 0, fits);
        WireFileDiff {
            path: fd.path,
            diff: kept.concat("\n… (diff truncated)"),
            truncated: true,
        }
    } else {
        WireFileDiff { path: fd.path, diff: fd.diff, truncated: false }
    }
}

pub open spec fn bytes_view(diff: Option<Vec<u8>>) -> Option<Seq<u8>> {
    match diff {
        Some(bytes) => Some(bytes@),
        None => None,
    }
}

/// The sections that a station is shown of a diff.
pub fn wire_diffs(diff: Option<Vec<u8>>, files: &Vec<String>) -> (r: Vec<WireFileDiff>)
    ensures
        file_diff_models(r@) == shown_diffs(
            bytes_view(diff),
            texts(files@),
        ),
{
    let mut r: Vec<WireFileDiff> = Vec::new();
    let bytes = match diff {
        Some(bytes) => bytes,
        None => {
            return r;
        },
    };
    let text = match text_from_utf8(bytes) {
        Some(text) => text,
        None => {
            return r;
        },
    };
    let whole = if files.len() == 1 {
        files[0].clone()
    } else {
        "(all files)".to_owned()
    };
    let sections = split_file_diffs_or_whole(text.as_str(), whole.as_str());
    let ghost views = file_diff_views(sections@);
    let mut sections = sections;
    let ghost mut i: int = 0;
    let ghost all = sections@;
    while sections.len() > 0
        invariant
            0 <= i <= all.len(),
            sections@ == all.skip(i),
            views == file_diff_views(all),
            r@.len() == i,
            forall|j: int|
                0 <= j < i ==> (
                    (#[trigger] r@[j]).path@,
                    r@[j].diff@,
                    r@[j].truncated,
                ) == capped(views[j], FILE_DIFF_CAP as nat),
        decreases sections.len(),
    {
        let section = sections.remove(0);
        r.push(cap_file_diff(section, FILE_DIFF_CAP));
        proof {
            i = i + 1;
        }
    }
    r
}

/// Was any section cut?
fn any_truncated(v: &Vec<WireFileDiff>) -> (r: bool)
    ensures
        r == exists|i: int| 0 <= i < v@.len() && (#[trigger] v@[i]).truncated,
{
    let mut i: usize = 0;
    while i < v.len()
        invariant
            0 <= i <= v.len(),
            forall|j: int| 0 <= j < i ==> !(#[trigger] v@[j]).truncated,
        decreases v.len() - i,
    {
        if v[i].truncated {
            return true;
        }
        i = i + 1;
    }
    false
}

/// What a station is shown of each question.
fn wire_questions(exchange: &Clarify) -> (r: Vec<WireQuestion>)
    requires
        exchange.wf(),
    ensures
        r@.len() == exchange@.states.len(),
        forall|q: int| 0 <= q < r@.len() ==> question_shown(exchange@, q, #[trigger] r@[q]),
{
    let mut r: Vec<WireQuestion> = Vec::new();
    let mut q: usize = 0;
    while q < exchange.len()
        invariant
            exchange.wf(),
            0 <= q <= exchange@.states.len(),
            r@.len() == q,
            forall|j: int| 0 <= j < q ==> question_shown(exchange@, j, #[trigger] r@[j]),
        decreases exchange@.states.len() - q,
    {
        let first = exchange.pick(0, q);
        let second = exchange.pick(1, q);
        let question = WireQuestion {
            prompt: exchange.prompt(q),
            options: exchange.options(q),
            allows_custom: exchange.allows_custom(q),
            picks: [first, second],
            resolved: exchange.resolved_answer(q),
        };
        r.push(question);
        q = q + 1;
    }
    r
}

impl Net {
    /// The plan that counts: what the agent proposed, or the configured one.
    pub fn effective_plan(&self, configured: &Vec<String>) -> (r: Vec<String>)
        ensures
            texts(r@) == self@.effective_plan(texts(configured@)),
    {
        match &self.agent_plan {
            Some(tasks) => copy_texts(tasks),
            None => copy_texts(configured),
        }
    }

    pub fn wire_phase(&self, configured: &Vec<String>) -> (r: WirePhase)
        requires
            self.wf(),
        ensures
            self@.phase_shown(texts(configured@), r),
    {
        match &self.phase {
            Phase::AwaitOperators => WirePhase::AwaitOperators,
            Phase::DispatchReady => WirePhase::DispatchReady { prompt: self.prompt.clone() },
            Phase::PlanReview => WirePhase::PlanReview { tasks: self.effective_plan(configured) },
            Phase::Clarify => WirePhase::Clarify {
                questions: match &self.clarify {
                    Some(exchange) => wire_questions(exchange),
                    None => Vec::new(),
                },
            },
            Phase::Executing => WirePhase::Executing,
            Phase::Closed { gates, chain_verified, reviewers, merged, abandoned } => {
                WirePhase::Closed {
                    gates: *gates,
                    chain_verified: *chain_verified,
                    reviewers: copy_texts(reviewers),
                    merged: *merged,
                    abandoned: *abandoned,
                }
            },
        }
    }

    fn wire_seat(&self, seat: usize) -> (r: WireSeat)
        requires
            self.wf(),
            seat < 2,
        ensures
            seat_shown(self@.seats[seat as int], r),
    {
        let s = &self.seats[seat];
        WireSeat {
            label: s.label.clone(),
            operator: s.operator,
            role: s.role,
            linked: s.linked,
            ready: s.ready,
            afk: s.afk,
        }
    }

    pub fn wire_seats(&self) -> (r: Vec<WireSeat>)
        requires
            self.wf(),
        ensures
            r@.len() == 2,
            forall|i: int| 0 <= i < 2 ==> seat_shown(self@.seats[i], #[trigger] r@[i]),
    {
        let mut r: Vec<WireSeat> = Vec::new();
        r.push(self.wire_seat(0));
        r.push(self.wire_seat(1));
        r
    }

    pub fn wire_fleet(&self) -> (r: Vec<WireFleetCard>)
        ensures
            r@.len() == self@.fleet.len(),
            forall|i: int|
                0 <= i < r@.len() ==> self@.fleet[i] == (CardModel {
                    id: (#[trigger] r@[i]).id@,
                    status: r@[i].status@,
                    needs_signoff: r@[i].needs_signoff,
                }),
    {
        let mut r: Vec<WireFleetCard> = Vec::new();
        let mut i: usize = 0;
        while i < self.fleet.len()
            invariant
                0 <= i <= self.fleet.len(),
                r@.len() == i,
                forall|j: int| 0 <= j < i ==> #[trigger] r@[j] == self.fleet@[j],
            decreases self.fleet.len() - i,
        {
            r.push(self.fleet[i].clone());
            i = i + 1;
        }
        r
    }

    pub fn wire_pending_join(&self) -> (r: Option<WirePendingJoin>)
        ensures
            match self@.pending_join {
                None => r is None,
                Some(op) => r matches Some(j) && j.operator == op && j.fingerprint@
                    == crate::text::hex_spec(op.0@.take(8)),
            },
    {
        match self.pending_join {
            Some(operator) => Some(
                WirePendingJoin { operator, fingerprint: operator.fingerprint() },
            ),
            None => None,
        }
    }

    fn wire_notes(&self, gate_id: &str) -> (r: Vec<WireComment>)
        requires
            self.wf(),
        ensures
            r@.len() == self@.notes(gate_id@).len(),
            forall|i: int|
                0 <= i < r@.len() ==> {
                    let note = self@.notes(gate_id@)[i];
                    &&& (#[trigger] r@[i]).who@ == self@.seats[note.0 as int].label
                    &&& r@[i].text@ == note.1
                },
    {
        let mut r: Vec<WireComment> = Vec::new();
        match self.discuss.get(gate_id) {
            None => {
            },
            Some(notes) => {
                let mut i: usize = 0;
                while i < notes.len()
                    invariant
                        self.wf(),
                        self@.discuss.contains_key(gate_id@),
                        self@.notes(gate_id@) == note_models(notes@),
                        0 <= i <= notes.len(),
                        r@.len() == i,
                        forall|j: int|
                            0 <= j < i ==> {
                                let note = self@.notes(gate_id@)[j];
                                &&& (#[trigger] r@[j]).who@ == self@.seats[note.0 as int].label
                                &&& r@[j].text@ == note.1
                            },
                    decreases notes.len() - i,
                {
                    assert(self@.discuss[gate_id@][i as int].0 < 2);
                    let seat: usize = notes[i].0;
                    r.push(WireComment { who: self.label(seat), text: notes[i].1.clone() });
                    i = i + 1;
                }
            },
        }
        r
    }

    /// What a station is shown of a pending gate, given its frozen diff.
    pub fn wire_gate(&self, gv: &GateView, diff: Option<Vec<u8>>, gate: Ghost<GateModel>) -> (r:
        WireGate)
        requires
            self.wf(),
            gate@.shown_as(*gv),
        ensures
            self@.gate_shown(
                gate@,
                r,
                bytes_view(diff),
            ),
    {
        let file_diffs = wire_diffs(diff, &gv.files);
        let diff_truncated = any_truncated(&file_diffs);
        let last_cmd = match self.last_cmd.get(gv.task_id.0.as_str()) {
            Some(cmd) => Some(cmd.clone()),
            None => None,
        };
        let ghost task = gate@.hold.task_id;
        let claimed_by = match &self.claim {
            Some(c) => if c.0 == gv.gate_id.0 {
                Some(self.label(c.1))
            } else {
                None
            },
            None => None,
        };
        let r = WireGate {
            gate_id: gv.gate_id.clone(),
            task: gv.task_id.0.clone(),
            files: copy_texts(&gv.files),
            loc: gv.loc,
            diff_hash: gv.diff_hash,
            keys: copy_keys(&gv.observed),
            escalation_required: gv.escalation_required,
            file_diffs,
            diff_truncated,
            last_cmd,
            agent: gv.agent.clone(),
            claimed_by,
            discuss: self.wire_notes(gv.gate_id.0.as_str()),
        };
        assert(r.file_diffs == file_diffs);
        assert forall|i: int| 0 <= i < r.discuss@.len() implies {
            let note = self@.notes(gate@.hold.gate_id)[i];
            &&& (#[trigger] r.discuss@[i]).who@ == self@.seats[note.0 as int].label
            &&& r.discuss@[i].text@ == note.1
        } by {}
        r
    }
}

fn copy_keys(v: &Vec<crate::sealed::VerdictView>) -> (r: Vec<crate::sealed::VerdictView>)
    ensures
        r@ == v@,
{
    let mut r: Vec<crate::sealed::VerdictView> = Vec::new();
    let mut i: usize = 0;
    while i < v.len()
        invariant
            0 <= i <= v.len(),
            r@ == v@.take(i as int),
        decreases v.len() - i,
    {
        r.push(v[i].clone());
        i = i + 1;
    }
    r
}

} // verus!
