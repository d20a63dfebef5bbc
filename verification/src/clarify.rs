//! Agent clarification questions: a dual-consent Q&A the agent raises when the
//! prompt is ambiguous, resolved before it plans.
//!
//! Each question is multiple-choice with an implicit final "provide your own
//! answer" (free-text) option. Both operators answer every question. When their
//! answers to a question differ, that question re-asks with exactly three
//! options (the first operator's answer, the second's, or "accept both") and
//! both must converge. There is no third party: converging is the operators' to
//! do (the same rule as gate disagreement).
//!
//! This module is the pure state machine: no I/O, no wire types. It is driven
//! by `answer()` and read by the projection accessors; the session server and
//! the console layer on top.
use vstd::prelude::*;

use crate::text::{copy_texts, texts, trim, trimmed};

verus! {

/// A question the agent asks. The "provide your own answer" option is implicit:
/// it is never stored in `options`; the console always offers it as the last
/// pick.
#[derive(Clone, PartialEq, Eq, Debug)]
pub struct Question {
    pub prompt: String,
    pub options: Vec<String>,
}

/// One operator's pick for a question in the current round.
#[derive(PartialEq, Eq, Debug)]
pub enum Choice {
    /// Index into the question's current options.
    Option(usize),
    /// The operator's own free-text answer ("provide your own").
    Custom(String),
}

impl Clone for Choice {
    fn clone(&self) -> (r: Self)
        ensures
            r == *self,
    {
        match self {
            Choice::Option(i) => Choice::Option(*i),
            Choice::Custom(s) => Choice::Custom(s.clone()),
        }
    }
}

/// The answer text of a choice, given the options in effect for the round.
pub open spec fn choice_text(choice: Choice, options: Seq<Seq<char>>) -> Seq<char> {
    match choice {
        Choice::Option(i) => if i < options.len() {
            options[i as int]
        } else {
            seq![]
        },
        Choice::Custom(s) => trimmed(s@),
    }
}

impl Choice {
    /// Resolve to the answer text, given the options in effect for the round.
    fn text(&self, options: &Vec<String>) -> (r: String)
        ensures
            r@ == choice_text(*self, texts(options@)),
    {
        match self {
            Choice::Option(i) => {
                if *i < options.len() {
                    options[*i].clone()
                } else {
                    String::new()
                }
            },
            Choice::Custom(s) => trim(s.as_str()),
        }
    }
}

/// Per-question resolution state.
#[allow(inconsistent_fields)]
#[derive(Clone, PartialEq, Eq, Debug)]
enum QState {
    /// First round: collecting each seat's answer to the original question.
    Collecting { options: Vec<String>, a: Option<Choice>, b: Option<Choice> },
    /// The two answers diverged; collecting reconciliation picks. The options
    /// in effect are `[a_text, b_text, "accept both"]`.
    Reconciling { a_text: String, b_text: String, a: Option<usize>, b: Option<usize> },
    /// Done. One accepted answer, or two when the operators chose "accept both".
    Resolved(Vec<String>),
}

/// Where one question stands.
#[verifier::ext_equal]
pub enum QuestionState {
    Collecting { options: Seq<Seq<char>>, a: Option<Choice>, b: Option<Choice> },
    Reconciling {
        a_text: Seq<char>,
        b_text: Seq<char>,
        first: Option<int>,
        second: Option<int>,
    },
    Resolved(Seq<Seq<char>>),
}

impl View for QState {
    type V = QuestionState;

    closed spec fn view(&self) -> QuestionState {
        match self {
            QState::Collecting { options, a, b } => QuestionState::Collecting {
                options: texts(options@),
                a: *a,
                b: *b,
            },
            QState::Reconciling { a_text, b_text, a, b } => QuestionState::Reconciling {
                a_text: a_text@,
                b_text: b_text@,
                first: match a {
                    Some(i) => Some(*i as int),
                    None => None,
                },
                second: match b {
                    Some(i) => Some(*i as int),
                    None => None,
                },
            },
            QState::Resolved(answers) => QuestionState::Resolved(texts(answers@)),
        }
    }
}

/// The three options of a reconciliation round.
pub open spec fn reconciliation(a_text: Seq<char>, b_text: Seq<char>) -> Seq<Seq<char>> {
    seq![a_text, b_text, "accept both"@]
}

/// Which reconciliation option a choice names: an index as it is, a text by
/// the first option it equals.
pub open spec fn reconciliation_pick(
    choice: Choice,
    a_text: Seq<char>,
    b_text: Seq<char>,
) -> Option<int> {
    match choice {
        Choice::Option(i) => if i < 3 {
            Some(i as int)
        } else {
            None
        },
        Choice::Custom(s) => if trimmed(s@) == a_text {
            Some(0)
        } else if trimmed(s@) == b_text {
            Some(1)
        } else if trimmed(s@) == "accept both"@ {
            Some(2)
        } else {
            None
        },
    }
}

/// What a reconciliation settles on.
pub open spec fn settled(a_text: Seq<char>, b_text: Seq<char>, pick: int) -> Seq<Seq<char>> {
    if pick == 0 {
        seq![a_text]
    } else if pick == 1 {
        seq![b_text]
    } else {
        seq![a_text, b_text]
    }
}

/// A question after a seat's answer to it. The first seat is 0; any other
/// number is the second.
pub open spec fn answered(state: QuestionState, seat: nat, choice: Choice) -> QuestionState {
    match state {
        QuestionState::Collecting { options, a, b } => {
            let a2 = if seat == 0 {
                Some(choice)
            } else {
                a
            };
            let b2 = if seat == 0 {
                b
            } else {
                Some(choice)
            };
            match (a2, b2) {
                (Some(ca), Some(cb)) => {
                    let ta = choice_text(ca, options);
                    let tb = choice_text(cb, options);
                    if ta == tb {
                        QuestionState::Resolved(seq![ta])
                    } else {
                        QuestionState::Reconciling {
                            a_text: ta,
                            b_text: tb,
                            first: None,
                            second: None,
                        }
                    }
                },
                _ => QuestionState::Collecting { options, a: a2, b: b2 },
            }
        },
        QuestionState::Reconciling { a_text, b_text, first, second } => match reconciliation_pick(
            choice,
            a_text,
            b_text,
        ) {
            None => state,
            Some(pick) => {
                let p = if seat == 0 {
                    Some(pick)
                } else {
                    first
                };
                let q = if seat == 0 {
                    second
                } else {
                    Some(pick)
                };
                match (p, q) {
                    (Some(i), Some(j)) => if i == j {
                        QuestionState::Resolved(settled(a_text, b_text, i))
                    } else {
                        QuestionState::Reconciling { a_text, b_text, first: None, second: None }
                    },
                    _ => QuestionState::Reconciling { a_text, b_text, first: p, second: q },
                }
            },
        },
        QuestionState::Resolved(_) => state,
    }
}

impl QuestionState {
    /// What holds of every question that answers have led to: an open one is
    /// still owed an answer by some seat, two answers that are being reconciled
    /// differ, and a resolved one has one accepted answer or two that differ.
    pub open spec fn valid(self) -> bool {
        match self {
            QuestionState::Collecting { a, b, .. } => a is None || b is None,
            QuestionState::Reconciling { a_text, b_text, first, second } => {
                &&& a_text != b_text
                &&& first is None || second is None
                &&& first matches Some(i) ==> 0 <= i < 3
                &&& second matches Some(i) ==> 0 <= i < 3
            },
            QuestionState::Resolved(answers) => {
                ||| answers.len() == 1
                ||| answers.len() == 2 && answers[0] != answers[1]
            },
        }
    }

    /// The options currently in effect.
    pub open spec fn options(self) -> Seq<Seq<char>> {
        match self {
            QuestionState::Collecting { options, .. } => options,
            QuestionState::Reconciling { a_text, b_text, .. } => reconciliation(a_text, b_text),
            QuestionState::Resolved(_) => seq![],
        }
    }

    /// Has this seat answered in the current round?
    pub open spec fn has_picked(self, seat: nat) -> bool {
        match self {
            QuestionState::Collecting { a, b, .. } => if seat == 0 {
                a is Some
            } else {
                b is Some
            },
            QuestionState::Reconciling { first, second, .. } => if seat == 0 {
                first is Some
            } else {
                second is Some
            },
            QuestionState::Resolved(_) => true,
        }
    }

    /// What a seat has picked in the current round, in words.
    pub open spec fn pick(self, seat: nat) -> Option<Seq<char>> {
        match self {
            QuestionState::Collecting { options, a, b } => match if seat == 0 {
                a
            } else {
                b
            } {
                Some(choice) => Some(choice_text(choice, options)),
                None => None,
            },
            QuestionState::Reconciling { a_text, b_text, first, second } => match if seat == 0 {
                first
            } else {
                second
            } {
                Some(i) => Some(
                    if i == 0 {
                        a_text
                    } else if i == 1 {
                        b_text
                    } else {
                        "accept both"@
                    },
                ),
                None => None,
            },
            QuestionState::Resolved(_) => None,
        }
    }
}

/// A dual-consent clarification exchange.
#[verifier::ext_equal]
pub struct ClarifyView {
    pub prompts: Seq<Seq<char>>,
    pub states: Seq<QuestionState>,
}

impl ClarifyView {
    /// What holds of every exchange, whatever was answered: it is over at least
    /// one question, with one state to a prompt.
    pub open spec fn valid(self) -> bool {
        &&& self.states.len() > 0
        &&& self.prompts.len() == self.states.len()
        &&& forall|q: int| 0 <= q < self.states.len() ==> (#[trigger] self.states[q]).valid()
    }

    /// Every question is resolved.
    pub open spec fn done(self) -> bool {
        forall|q: int| 0 <= q < self.states.len() ==> (#[trigger] self.states[q]) is Resolved
    }

    /// The accepted answers of every question.
    pub open spec fn answers(self) -> Seq<Seq<Seq<char>>> {
        self.states.map_values(|s: QuestionState| s->Resolved_0)
    }

    /// The exchange after a seat's answer to a question; nothing where there is
    /// no such question.
    pub open spec fn after(self, seat: nat, q: int, choice: Choice) -> ClarifyView {
        if 0 <= q < self.states.len() {
            ClarifyView {
                states: self.states.update(q, answered(self.states[q], seat, choice)),
                ..self
            }
        } else {
            self
        }
    }

    /// The prompt in effect for a question: the original, or one that names the
    /// divergence while reconciling.
    pub open spec fn prompt(self, q: int) -> Seq<char> {
        if 0 <= q < self.states.len() {
            match self.states[q] {
                QuestionState::Reconciling { a_text, b_text, .. } => "operators differ on \""@
                    + self.prompts[q] + "\" — A: "@ + a_text + " · B: "@ + b_text
                    + " — agree which to use"@,
                _ => self.prompts[q],
            }
        } else {
            seq![]
        }
    }
}

/// The exchange at its start.
pub open spec fn fresh_exchange(questions: Seq<Question>) -> ClarifyView {
    ClarifyView {
        prompts: questions.map_values(|q: Question| q.prompt@),
        states: questions.map_values(
            |q: Question|
                QuestionState::Collecting { options: texts(q.options@), a: None, b: None },
        ),
    }
}

/// A dual-consent clarification exchange over a fixed set of questions.
#[derive(Clone, Debug)]
pub struct Clarify {
    prompts: Vec<String>,
    states: Vec<QState>,
}

impl View for Clarify {
    type V = ClarifyView;

    closed spec fn view(&self) -> ClarifyView {
        ClarifyView {
            prompts: texts(self.prompts@),
            states: self.states@.map_values(|s: QState| s@),
        }
    }
}

fn copy_choice(c: &Option<Choice>) -> (r: Option<Choice>)
    ensures
        r == *c,
{
    match c {
        Some(choice) => Some(choice.clone()),
        None => None,
    }
}

fn one_text(s: String) -> (r: Vec<String>)
    ensures
        texts(r@) == seq![s@],
{
    let mut r: Vec<String> = Vec::new();
    r.push(s);
    r
}

fn two_texts(s: String, t: String) -> (r: Vec<String>)
    ensures
        texts(r@) == seq![s@, t@],
{
    let mut r: Vec<String> = Vec::new();
    r.push(s);
    r.push(t);
    r
}

/// Which reconciliation option a choice names.
fn pick_index(choice: &Choice, a_text: &String, b_text: &String) -> (r: Option<usize>)
    ensures
        match r {
            Some(i) => i < 3 && reconciliation_pick(*choice, a_text@, b_text@) == Some(i as int),
            None => reconciliation_pick(*choice, a_text@, b_text@) is None,
        },
{
    match choice {
        Choice::Option(i) => {
            if *i < 3 {
                Some(*i)
            } else {
                None
            }
        },
        Choice::Custom(s) => {
            let t = trim(s.as_str());
            let both = "accept both".to_owned();
            if t == *a_text {
                Some(0)
            } else if t == *b_text {
                Some(1)
            } else if t == both {
                Some(2)
            } else {
                None
            }
        },
    }
}

/// The state of a question after a seat's answer.
fn next_state(state: &QState, seat: usize, choice: Choice) -> (r: QState)
    ensures
        r@ == answered(state@, seat as nat, choice),
{
    match state {
        QState::Collecting { options, a, b } => {
            let (a2, b2) = if seat == 0 {
                (Some(choice), copy_choice(b))
            } else {
                (copy_choice(a), Some(choice))
            };
            match (&a2, &b2) {
                (Some(ca), Some(cb)) => {
                    let ta = ca.text(options);
                    let tb = cb.text(options);
                    if ta == tb {
                        QState::Resolved(one_text(ta))
                    } else {
                        QState::Reconciling { a_text: ta, b_text: tb, a: None, b: None }
                    }
                },
                _ => QState::Collecting { options: copy_texts(options), a: a2, b: b2 },
            }
        },
        QState::Reconciling { a_text, b_text, a, b } => {
            match pick_index(&choice, a_text, b_text) {
                None => QState::Reconciling {
                    a_text: a_text.clone(),
                    b_text: b_text.clone(),
                    a: *a,
                    b: *b,
                },
                Some(pick) => {
                    let (p, q): (Option<usize>, Option<usize>) = if seat == 0 {
                        (Some(pick), *b)
                    } else {
                        (*a, Some(pick))
                    };
                    match (p, q) {
                        (Some(i), Some(j)) => {
                            if i == j {
                                if i == 0 {
                                    QState::Resolved(one_text(a_text.clone()))
                                } else if i == 1 {
                                    QState::Resolved(one_text(b_text.clone()))
                                } else {
                                    QState::Resolved(two_texts(a_text.clone(), b_text.clone()))
                                }
                            } else {
                                // Still diverging: re-ask the same reconciliation.
                                QState::Reconciling {
                                    a_text: a_text.clone(),
                                    b_text: b_text.clone(),
                                    a: None,
                                    b: None,
                                }
                            }
                        },
                        _ => QState::Reconciling {
                            a_text: a_text.clone(),
                            b_text: b_text.clone(),
                            a: p,
                            b: q,
                        },
                    }
                },
            }
        },
        QState::Resolved(answers) => QState::Resolved(copy_texts(answers)),
    }
}

impl Clarify {
    /// The invariant of every exchange.
    pub open spec fn wf(&self) -> bool {
        self@.valid()
    }

    /// Start an exchange, over at least one question.
    pub fn new(questions: Vec<Question>) -> (r: Self)
        requires
            questions@.len() > 0,
        ensures
            r.wf(),
            r@ == fresh_exchange(questions@),
    {
        let mut prompts: Vec<String> = Vec::new();
        let mut states: Vec<QState> = Vec::new();
        let mut i: usize = 0;
        while i < questions.len()
            invariant
                0 <= i <= questions.len(),
                prompts@.len() == i,
                states@.len() == i,
                forall|j: int|
                    0 <= j < i ==> (#[trigger] prompts@[j])@ == questions@[j].prompt@,
                forall|j: int|
                    0 <= j < i ==> (#[trigger] states@[j])@ == (QuestionState::Collecting {
                        options: texts(questions@[j].options@),
                        a: None,
                        b: None,
                    }),
            decreases questions.len() - i,
        {
            prompts.push(questions[i].prompt.clone());
            states.push(
                QState::Collecting {
                    options: copy_texts(&questions[i].options),
                    a: None,
                    b: None,
                },
            );
            i = i + 1;
        }
        Clarify { prompts, states }
    }

    pub fn len(&self) -> (r: usize)
        ensures
            r == self@.states.len(),
    {
        self.states.len()
    }

    pub fn is_empty(&self) -> (r: bool)
        ensures
            r == (self@.states.len() == 0),
    {
        self.states.len() == 0
    }

    /// The options currently in effect for a question: the originals while
    /// collecting, or `[a_text, b_text, "accept both"]` while reconciling.
    /// Empty once resolved.
    pub fn options(&self, q: usize) -> (r: Vec<String>)
        ensures
            texts(r@) == (if q < self@.states.len() {
                self@.states[q as int].options()
            } else {
                seq![]
            }),
    {
        if q < self.states.len() {
            match &self.states[q] {
                QState::Collecting { options, .. } => {
                    return copy_texts(options);
                },
                QState::Reconciling { a_text, b_text, .. } => {
                    let mut r = two_texts(a_text.clone(), b_text.clone());
                    let ghost before = texts(r@);
                    r.push("accept both".to_owned());
                    assert(texts(r@) =~= before.push("accept both"@));
                    return r;
                },
                QState::Resolved(_) => {},
            }
        }
        let none: Vec<String> = Vec::new();
        none
    }

    /// The prompt in effect for a question: the original while collecting, or a
    /// reconciliation prompt naming the divergence while reconciling.
    pub fn prompt(&self, q: usize) -> (r: String)
        requires
            self.wf(),
        ensures
            r@ == self@.prompt(q as int),
    {
        if q < self.states.len() {
            match &self.states[q] {
                QState::Reconciling { a_text, b_text, .. } => "operators differ on \"".to_owned()
                    .concat(self.prompts[q].as_str()).concat("\" — A: ").concat(
                    a_text.as_str(),
                ).concat(" · B: ").concat(b_text.as_str()).concat(" — agree which to use"),
                _ => self.prompts[q].clone(),
            }
        } else {
            String::new()
        }
    }

    /// True when a seat is still owed an answer for this question.
    pub fn awaiting(&self, seat: usize, q: usize) -> (r: bool)
        ensures
            r == (q < self@.states.len() && seat < 2 && !self@.states[q as int].has_picked(
                seat as nat,
            )),
    {
        if q < self.states.len() {
            match &self.states[q] {
                QState::Collecting { a, b, .. } => (seat == 0 && a.is_none()) || (seat == 1
                    && b.is_none()),
                QState::Reconciling { a, b, .. } => (seat == 0 && a.is_none()) || (seat == 1
                    && b.is_none()),
                QState::Resolved(_) => false,
            }
        } else {
            false
        }
    }

    /// Whether custom free-text answers are offered for this question. Only in
    /// the first (collecting) round: reconciliation is a fixed three-way pick.
    pub fn allows_custom(&self, q: usize) -> (r: bool)
        ensures
            r == (q < self@.states.len() && self@.states[q as int] is Collecting),
    {
        if q < self.states.len() {
            matches!(&self.states[q], QState::Collecting { .. })
        } else {
            false
        }
    }

    /// What a seat has picked for a question in the current round, in words.
    pub fn pick(&self, seat: usize, q: usize) -> (r: Option<String>)
        ensures
            match r {
                Some(t) => q < self@.states.len() && self@.states[q as int].pick(seat as nat)
                    == Some(t@),
                None => q >= self@.states.len() || self@.states[q as int].pick(seat as nat)
                    is None,
            },
    {
        if q < self.states.len() {
            match &self.states[q] {
                QState::Collecting { options, a, b } => {
                    let picked = if seat == 0 {
                        a
                    } else {
                        b
                    };
                    match picked {
                        Some(choice) => Some(choice.text(options)),
                        None => None,
                    }
                },
                QState::Reconciling { a_text, b_text, a, b } => {
                    let picked: Option<usize> = if seat == 0 {
                        *a
                    } else {
                        *b
                    };
                    match picked {
                        Some(i) => {
                            if i == 0 {
                                Some(a_text.clone())
                            } else if i == 1 {
                                Some(b_text.clone())
                            } else {
                                Some("accept both".to_owned())
                            }
                        },
                        None => None,
                    }
                },
                QState::Resolved(_) => None,
            }
        } else {
            None
        }
    }

    /// The accepted answer(s) to a question, once it is resolved.
    pub fn resolved_answer(&self, q: usize) -> (r: Option<Vec<String>>)
        ensures
            match r {
                Some(v) => q < self@.states.len() && self@.states[q as int]
                    == QuestionState::Resolved(texts(v@)),
                None => q >= self@.states.len() || !(self@.states[q as int] is Resolved),
            },
    {
        if q < self.states.len() {
            match &self.states[q] {
                QState::Resolved(answers) => Some(copy_texts(answers)),
                _ => None,
            }
        } else {
            None
        }
    }

    /// Record a seat's answer to a question, advancing the state when both
    /// seats have answered. `seat` is 0 or 1. During reconciliation a `Custom`
    /// choice is coerced to an option index by matching text (the console only
    /// offers indices there), falling back to a no-op on mismatch.
    pub fn answer(&mut self, seat: usize, q: usize, choice: Choice)
        requires
            old(self).wf(),
        ensures
            final(self).wf(),
            final(self)@ == old(self)@.after(seat as nat, q as int, choice),
    {
        if q >= self.states.len() {
            return;
        }
        proof {
            answer_keeps_validity(self@.states[q as int], seat as nat, choice);
        }
        let next = next_state(&self.states[q], seat, choice);
        self.states[q] = next;
        assert(self@ =~= old(self)@.after(seat as nat, q as int, choice));
    }

    /// True once every question is resolved.
    pub fn is_resolved(&self) -> (r: bool)
        ensures
            r == self@.done(),
    {
        let mut q: usize = 0;
        while q < self.states.len()
            invariant
                0 <= q <= self.states.len(),
                forall|j: int| 0 <= j < q ==> (#[trigger] self@.states[j]) is Resolved,
            decreases self.states.len() - q,
        {
            if !matches!(&self.states[q], QState::Resolved(_)) {
                assert(!(self@.states[q as int] is Resolved));
                return false;
            }
            q = q + 1;
        }
        true
    }

    /// The resolved answers per original question (one or more strings each),
    /// or `None` while any question is still open.
    pub fn resolved(&self) -> (r: Option<Vec<Vec<String>>>)
        ensures
            match r {
                Some(v) => self@.done() && answer_texts(v@) == self@.answers(),
                None => !self@.done(),
            },
    {
        if !self.is_resolved() {
            return None;
        }
        let mut r: Vec<Vec<String>> = Vec::new();
        let mut q: usize = 0;
        while q < self.states.len()
            invariant
                0 <= q <= self.states.len(),
                self@.done(),
                r@.len() == q,
                forall|j: int| 0 <= j < q ==> texts((#[trigger] r@[j])@) == self@.answers()[j],
            decreases self.states.len() - q,
        {
            assert(self@.states[q as int] is Resolved);
            match &self.states[q] {
                QState::Resolved(answers) => {
                    r.push(copy_texts(answers));
                },
                _ => {},
            }
            q = q + 1;
        }
        Some(r)
    }
}

/// The characters of a list of answers to each question.
pub open spec fn answer_texts(v: Seq<Vec<String>>) -> Seq<Seq<Seq<char>>> {
    v.map_values(|answers: Vec<String>| texts(answers@))
}

/// An answer leads from a valid question to a valid one.
proof fn answer_keeps_validity(state: QuestionState, seat: nat, choice: Choice)
    requires
        state.valid(),
    ensures
        answered(state, seat, choice).valid(),
{
}

/// An open question is always owed an answer by some seat: no exchange is stuck.
pub proof fn open_question_is_owed_an_answer(exchange: ClarifyView, q: int)
    requires
        exchange.valid(),
        0 <= q < exchange.states.len(),
        !(exchange.states[q] is Resolved),
    ensures
        exists|seat: nat| seat < 2 && !(#[trigger] exchange.states[q].has_picked(seat)),
{
    assert(exchange.states[q].valid());
    assert(!exchange.states[q].has_picked(0) || !exchange.states[q].has_picked(1));
}

/// Only answers that differ are put up for reconciliation, and two answers are
/// accepted only where they differ.
pub proof fn only_differing_answers_stand_side_by_side(exchange: ClarifyView, q: int)
    requires
        exchange.valid(),
        0 <= q < exchange.states.len(),
    ensures
        exchange.states[q] matches QuestionState::Reconciling { a_text, b_text, .. } ==> a_text
            != b_text,
        exchange.states[q] matches QuestionState::Resolved(answers) ==> 1 <= answers.len() <= 2
            && (answers.len() == 2 ==> answers[0] != answers[1]),
{
    assert(exchange.states[q].valid());
}

/// One seat alone never resolves a question: an answer resolves it only where
/// the other seat has answered in the same round.
pub proof fn one_seat_never_resolves(state: QuestionState, seat: nat, choice: Choice)
    requires
        seat < 2,
        !(state is Resolved),
        !state.has_picked((1 - seat) as nat),
    ensures
        !(answered(state, seat, choice) is Resolved),
{
}

/// A question resolves in the first round only where both seats gave the same
/// answer, and that answer is what is accepted.
pub proof fn agreement_is_what_resolves(state: QuestionState, seat: nat, choice: Choice)
    requires
        seat < 2,
        state is Collecting,
        answered(state, seat, choice) is Resolved,
    ensures
        state.pick((1 - seat) as nat) == Some(choice_text(choice, state.options())),
        answered(state, seat, choice) == QuestionState::Resolved(
            seq![choice_text(choice, state.options())],
        ),
{
}

/// A reconciliation settles on the first answer, the second, or both, and on
/// nothing else.
pub proof fn reconciliation_settles_on_given_answers(
    state: QuestionState,
    seat: nat,
    choice: Choice,
)
    requires
        state is Reconciling,
        answered(state, seat, choice) is Resolved,
    ensures
        ({
            let accepted = answered(state, seat, choice)->Resolved_0;
            let a = state->a_text;
            let b = state->b_text;
            accepted == seq![a] || accepted == seq![b] || accepted == seq![a, b]
        }),
{
}

/// A resolved question stays as it is, whatever is answered.
pub proof fn resolved_is_final(state: QuestionState, seat: nat, choice: Choice)
    requires
        state is Resolved,
    ensures
        answered(state, seat, choice) == state,
{
}

/// Questions resolve independently: an answer to one leaves every other as it
/// was.
pub proof fn questions_are_independent(
    exchange: ClarifyView,
    seat: nat,
    q: int,
    other: int,
    choice: Choice,
)
    requires
        0 <= other < exchange.states.len(),
        other != q,
    ensures
        exchange.after(seat, q, choice).states[other] == exchange.states[other],
{
}

/// A choice stands for words: an option for its own, an own answer for what was
/// typed without the space around it, and a number without an option for none.
pub proof fn choices_stand_for_words(options: Seq<Seq<char>>, i: usize, own: String)
    ensures
        i < options.len() ==> choice_text(Choice::Option(i), options) == options[i as int],
        i >= options.len() ==> choice_text(Choice::Option(i), options).len() == 0,
        choice_text(Choice::Custom(own), options) == trimmed(own@),
{
}

/// A first answer is kept until the other seat has answered: the question stays
/// open with the same options, and an answer given again replaces the earlier.
pub proof fn first_answers_are_kept(
    options: Seq<Seq<char>>,
    earlier: Option<Choice>,
    seat: nat,
    choice: Choice,
)
    requires
        seat < 2,
    ensures
        ({
            let before = if seat == 0 {
                QuestionState::Collecting { options, a: earlier, b: None }
            } else {
                QuestionState::Collecting { options, a: None, b: earlier }
            };
            let after = answered(before, seat, choice);
            &&& after matches QuestionState::Collecting { options: o, a, b } && o == options && (
            if seat == 0 {
                a == Some(choice) && b is None
            } else {
                b == Some(choice) && a is None
            })
            &&& after.has_picked(seat) && !after.has_picked((1 - seat) as nat)
            &&& after.pick(seat) == Some(choice_text(choice, options))
            &&& after.pick((1 - seat) as nat) is None
            &&& after.options() == options
        }),
{
}

/// Both seats answered with the same words, in whatever way: that answer is
/// accepted. Their words differ: the question is asked again over exactly these
/// two answers, the first seat's first, with no pick yet.
pub proof fn two_answers_resolve_or_are_reconciled(
    options: Seq<Seq<char>>,
    first: Choice,
    second: Choice,
    last: nat,
    earlier: Option<Choice>,
)
    requires
        last < 2,
    ensures
        ({
            let before = if last == 0 {
                QuestionState::Collecting { options, a: earlier, b: Some(second) }
            } else {
                QuestionState::Collecting { options, a: Some(first), b: earlier }
            };
            let after = answered(
                before,
                last,
                if last == 0 {
                    first
                } else {
                    second
                },
            );
            let ta = choice_text(first, options);
            let tb = choice_text(second, options);
            &&& ta == tb ==> after == QuestionState::Resolved(seq![ta])
            &&& ta != tb ==> {
                &&& after matches QuestionState::Reconciling {
                    a_text,
                    b_text,
                    first: p,
                    second: q,
                } && a_text == ta && b_text == tb && p is None && q is None
                &&& after.options().len() == 3
                &&& after.options()[0] == ta
                &&& after.options()[1] == tb
                &&& after.options()[2] == "accept both"@
                &&& !after.has_picked(0) && !after.has_picked(1)
            }
        }),
{
}

/// Which of the three options a seat picks while answers are reconciled: a number
/// picks its option, the words of an option pick it, and anything else none.
pub proof fn reconciliation_picks(
    a_text: Seq<char>,
    b_text: Seq<char>,
    i: usize,
    own: String,
)
    requires
        a_text != b_text,
    ensures
        i < 3 ==> reconciliation_pick(Choice::Option(i), a_text, b_text) == Some(i as int),
        i >= 3 ==> reconciliation_pick(Choice::Option(i), a_text, b_text) is None,
        trimmed(own@) == a_text ==> reconciliation_pick(Choice::Custom(own), a_text, b_text)
            == Some(0int),
        trimmed(own@) == b_text ==> reconciliation_pick(Choice::Custom(own), a_text, b_text)
            == Some(1int),
        trimmed(own@) == "accept both"@ && a_text != "accept both"@ && b_text != "accept both"@
            ==> reconciliation_pick(Choice::Custom(own), a_text, b_text) == Some(2int),
        trimmed(own@) != a_text && trimmed(own@) != b_text && trimmed(own@) != "accept both"@
            ==> reconciliation_pick(Choice::Custom(own), a_text, b_text) is None,
{
}

/// A pick while answers are reconciled. Alone it is kept for its seat. Beside the
/// other seat's it settles the question where both pick the same: on the first
/// answer, on the second, or on both in order; and where they differ, the same
/// two answers are put to both seats again. A pick of nothing changes nothing.
pub proof fn picks_settle_or_ask_again(
    a_text: Seq<char>,
    b_text: Seq<char>,
    mine: Option<int>,
    theirs: Option<int>,
    seat: nat,
    choice: Choice,
)
    requires
        seat < 2,
        theirs matches Some(j) ==> 0 <= j < 3,
    ensures
        ({
            let before = if seat == 0 {
                QuestionState::Reconciling { a_text, b_text, first: mine, second: theirs }
            } else {
                QuestionState::Reconciling { a_text, b_text, first: theirs, second: mine }
            };
            let after = answered(before, seat, choice);
            match (reconciliation_pick(choice, a_text, b_text), theirs) {
                (None, _) => after == before,
                (Some(i), None) => after matches QuestionState::Reconciling {
                    a_text: x,
                    b_text: y,
                    first: p,
                    second: q,
                } && x == a_text && y == b_text && (if seat == 0 {
                    p == Some(i) && q is None
                } else {
                    p is None && q == Some(i)
                }),
                (Some(i), Some(j)) => if i != j {
                    after == (QuestionState::Reconciling {
                        a_text,
                        b_text,
                        first: None,
                        second: None,
                    })
                } else if i == 0 {
                    after == QuestionState::Resolved(seq![a_text])
                } else if i == 1 {
                    after == QuestionState::Resolved(seq![b_text])
                } else {
                    after == QuestionState::Resolved(seq![a_text, b_text])
                },
            }
        }),
{
}

/// What a seat picked while answers are reconciled is shown in that option's
/// words, and that seat alone has picked.
pub proof fn picks_are_shown_in_words(
    a_text: Seq<char>,
    b_text: Seq<char>,
    first: Option<int>,
    second: Option<int>,
)
    requires
        first matches Some(i) ==> 0 <= i < 3,
        second matches Some(i) ==> 0 <= i < 3,
    ensures
        ({
            let state = QuestionState::Reconciling { a_text, b_text, first, second };
            &&& state.has_picked(0) == (first is Some)
            &&& state.has_picked(1) == (second is Some)
            &&& first is None ==> state.pick(0) is None
            &&& second is None ==> state.pick(1) is None
            &&& first matches Some(i) ==> state.pick(0) == Some(state.options()[i])
            &&& second matches Some(i) ==> state.pick(1) == Some(state.options()[i])
        }),
{
}

/// A settled question asks nothing more: it has no options, and shows no pick.
pub proof fn settled_questions_ask_nothing(answers: Seq<Seq<char>>, seat: nat)
    ensures
        ({
            let state = QuestionState::Resolved(answers);
            &&& state.options().len() == 0
            &&& state.pick(seat) is None
            &&& state.has_picked(seat)
        }),
{
}

/// An answer changes its own question and no other; one to a question that does
/// not exist changes nothing.
pub proof fn answers_reach_their_question(
    exchange: ClarifyView,
    seat: nat,
    q: int,
    choice: Choice,
)
    ensures
        0 <= q < exchange.states.len() ==> exchange.after(seat, q, choice).states[q] == answered(
            exchange.states[q],
            seat,
            choice,
        ),
        !(0 <= q < exchange.states.len()) ==> exchange.after(seat, q, choice) == exchange,
        exchange.after(seat, q, choice).states.len() == exchange.states.len(),
        exchange.after(seat, q, choice).prompts == exchange.prompts,
        forall|k: int|
            0 <= k < exchange.states.len() && k != q ==> #[trigger] exchange.after(
                seat,
                q,
                choice,
            ).states[k] == exchange.states[k],
{
}

/// What an exchange hands back: once every question is resolved, the accepted
/// answers of each, in the order of the questions.
pub proof fn accepted_answers_are_handed_back(exchange: ClarifyView, q: int)
    requires
        0 <= q < exchange.states.len(),
    ensures
        exchange.answers().len() == exchange.states.len(),
        exchange.states[q] matches QuestionState::Resolved(accepted) ==> exchange.answers()[q]
            == accepted,
        exchange.done() ==> exchange.states[q] is Resolved,
        !(exchange.states[q] is Resolved) ==> !exchange.done(),
{
}

/// A fresh exchange asks what was asked: every question with its own prompt and
/// options, and nothing answered.
pub proof fn a_fresh_exchange_asks_every_question(questions: Seq<Question>, q: int)
    requires
        0 <= q < questions.len(),
    ensures
        fresh_exchange(questions).prompts.len() == questions.len(),
        fresh_exchange(questions).states.len() == questions.len(),
        fresh_exchange(questions).prompt(q) == questions[q].prompt@,
        fresh_exchange(questions).states[q].options() == texts(questions[q].options@),
        fresh_exchange(questions).states[q] is Collecting,
        !fresh_exchange(questions).states[q].has_picked(0),
        !fresh_exchange(questions).states[q].has_picked(1),
{
}

/// The prompt of a question says what is asked: the agent's own words, and while
/// answers are reconciled also both of them, the first seat's first.
pub proof fn prompts_say_what_is_asked(exchange: ClarifyView, q: int)
    ensures
        !(0 <= q < exchange.states.len()) ==> exchange.prompt(q).len() == 0,
        0 <= q < exchange.states.len() && !(exchange.states[q] is Reconciling) ==> exchange.prompt(q)
            == exchange.prompts[q],
        0 <= q < exchange.states.len() ==> (exchange.states[q] matches QuestionState::Reconciling { a_text, b_text, .. }
            ==> exchange.prompt(q) == "operators differ on \""@ + exchange.prompts[q] + "\" — A: "@
            + a_text + " · B: "@ + b_text + " — agree which to use"@),
{
}

} // verus!
