//! The dual-hold: the two-key review of one gated action.
use vstd::prelude::*;

use crate::eligibility::{count_non_makers, count_outside, eligible, is_eligible, MakerSet};
use crate::error::CastRejected;
use crate::ids::{GateId, OperatorId, TaskId};
use crate::policy::{Authorship, GatePolicy, Independence, Outcome};
use crate::sealed::{projection, SealedVerdict, VerdictView};
use crate::verdict::{CastVerdict, Remedy, Verdict};

verus! {

#[derive(Clone, Copy, PartialEq, Eq, Structural, Debug)]
pub enum HoldState {
    Open,
    Partial,
    Satisfied,
    Blocked,
}

impl HoldState {
    /// A hold in this state takes no further verdict.
    pub open spec fn is_final(self) -> bool {
        self is Satisfied || self is Blocked
    }

    pub fn is_resolved(&self) -> (r: bool)
        ensures
            r == self.is_final(),
    {
        matches!(self, HoldState::Satisfied | HoldState::Blocked)
    }
}

/// The result of accepting a cast: the new state plus whether the hold now
/// needs escalation (strict independence with too few eligible operators).
#[derive(Clone, Copy, PartialEq, Eq, Structural, Debug)]
pub struct HoldOutcome {
    pub state: HoldState,
    pub escalation_required: bool,
}

/// What a hold is, seen from outside its seals.
#[verifier::ext_equal]
pub struct HoldView {
    pub gate_id: Seq<char>,
    pub task_id: Seq<char>,
    pub diff_hash: Seq<u8>,
    pub policy: GatePolicy,
    pub makers: Set<OperatorId>,
    pub authorship: Authorship,
    pub verdicts: Seq<CastVerdict>,
    pub version: nat,
    pub state: HoldState,
    pub contested: bool,
    pub eligible_pool: nat,
    pub outcome: Option<Outcome>,
}

/// Every verdict is a go.
pub open spec fn all_go(verdicts: Seq<CastVerdict>) -> bool {
    forall|i: int| 0 <= i < verdicts.len() ==> (#[trigger] verdicts[i]).verdict is Go
}

/// The remedy of the first no-go.
pub open spec fn first_remedy(verdicts: Seq<CastVerdict>) -> Option<Remedy>
    decreases verdicts.len(),
{
    if verdicts.len() == 0 {
        None
    } else {
        match verdicts[0].verdict {
            Verdict::NoGo(remedy) => Some(remedy),
            Verdict::Go => first_remedy(verdicts.skip(1)),
        }
    }
}

/// Some verdict is from `op`.
pub open spec fn has_cast(verdicts: Seq<CastVerdict>, op: OperatorId) -> bool {
    exists|i: int| 0 <= i < verdicts.len() && (#[trigger] verdicts[i]).operator == op
}

/// No two verdicts are from one operator.
pub open spec fn distinct_operators(verdicts: Seq<CastVerdict>) -> bool {
    forall|i: int, j: int|
        0 <= i < j < verdicts.len() ==> (#[trigger] verdicts[i]).operator != (
        #[trigger] verdicts[j]).operator
}

/// Every verdict is from one of `makers`.
pub open spec fn all_by(verdicts: Seq<CastVerdict>, makers: Set<OperatorId>) -> bool {
    forall|i: int|
        0 <= i < verdicts.len() ==> makers.contains((#[trigger] verdicts[i]).operator)
}

/// The keys a hold is resolved by: as many as its policy requires, at least one.
pub open spec fn keys_to_resolve(policy: GatePolicy) -> nat {
    if policy.required == 0 {
        1
    } else {
        policy.required as nat
    }
}

impl HoldView {
    /// What holds of every hold, whatever was cast on it.
    pub open spec fn valid(self) -> bool {
        &&& self.version == self.verdicts.len()
        &&& self.verdicts.len() <= keys_to_resolve(self.policy)
        &&& distinct_operators(self.verdicts)
        &&& forall|i: int|
            0 <= i < self.verdicts.len() ==> (#[trigger] self.verdicts[i]).signature_holds(
                self.gate_id,
                self.diff_hash,
            ) && eligible(self.policy.independence, self.makers, self.verdicts[i].operator)
        &&& self.needs_co_signer() && self.verdicts.len() == keys_to_resolve(self.policy)
            ==> !all_by(self.verdicts, self.makers)
        &&& match self.state {
            HoldState::Open => self.verdicts.len() == 0 && self.outcome is None,
            HoldState::Partial => {
                &&& 0 < self.verdicts.len() < self.policy.required
                &&& self.policy.blind || all_go(self.verdicts)
                &&& self.outcome is None
            },
            HoldState::Satisfied => {
                &&& self.verdicts.len() == keys_to_resolve(self.policy)
                &&& all_go(self.verdicts)
                &&& self.outcome == Some(
                    if self.contested {
                        Outcome::ResolvedAfterDisagreement
                    } else {
                        Outcome::Unanimous
                    },
                )
            },
            HoldState::Blocked => {
                &&& !all_go(self.verdicts)
                &&& self.policy.blind ==> self.verdicts.len() == keys_to_resolve(self.policy)
                &&& self.outcome is None
            },
        }
    }

    /// A maker may be one of the keys, so another must be a non-maker's.
    pub open spec fn needs_co_signer(self) -> bool {
        self.policy.independence is Pragmatic && self.policy.required >= 2
    }

    /// With a key of `op` all keys would be in, and none of them a non-maker's.
    pub open spec fn lacks_co_signer(self, op: OperatorId) -> bool {
        &&& self.needs_co_signer()
        &&& self.verdicts.len() + 1 == keys_to_resolve(self.policy)
        &&& self.makers.contains(op)
        &&& all_by(self.verdicts, self.makers)
    }

    /// Verdict values are hidden: review is blind and not decided yet.
    pub open spec fn sealed(self) -> bool {
        self.policy.blind && !self.state.is_final()
    }

    /// What may be observed of the verdicts.
    pub open spec fn observed(self) -> Seq<VerdictView> {
        self.verdicts.map_values(|cv: CastVerdict| projection(cv, self.sealed()))
    }

    /// Why a cast is refused, if it is.
    pub open spec fn refusal(self, expected_version: u64, cv: CastVerdict) -> Option<CastRejected> {
        if self.state.is_final() {
            Some(CastRejected::AlreadyResolved)
        } else if expected_version != self.version {
            Some(
                CastRejected::StaleVersion {
                    expected: expected_version,
                    actual: self.version as u64,
                },
            )
        } else if !cv.signature_holds(self.gate_id, self.diff_hash) {
            Some(CastRejected::BadSignature)
        } else if has_cast(self.verdicts, cv.operator) {
            Some(CastRejected::DuplicateIdentity)
        } else if !eligible(self.policy.independence, self.makers, cv.operator) {
            Some(CastRejected::Ineligible)
        } else if self.lacks_co_signer(cv.operator) {
            Some(CastRejected::Ineligible)
        } else {
            None
        }
    }

    /// The state that the verdicts put the hold in. In blind mode any decision
    /// is deferred until all required verdicts are in, so the second operator
    /// can never observe the first (not even "it was a no-go"). In non-blind
    /// mode a no-go short-circuits.
    pub open spec fn decided(policy: GatePolicy, verdicts: Seq<CastVerdict>) -> HoldState {
        if !policy.blind && !all_go(verdicts) {
            HoldState::Blocked
        } else if verdicts.len() < policy.required {
            HoldState::Partial
        } else if all_go(verdicts) {
            HoldState::Satisfied
        } else {
            HoldState::Blocked
        }
    }

    /// The hold after it has taken `cv`.
    pub open spec fn after(self, cv: CastVerdict) -> HoldView {
        let verdicts = self.verdicts.push(cv);
        let state = HoldView::decided(self.policy, verdicts);
        HoldView {
            verdicts,
            version: self.version + 1,
            state,
            outcome: if state is Satisfied {
                Some(
                    if self.contested {
                        Outcome::ResolvedAfterDisagreement
                    } else {
                        Outcome::Unanimous
                    },
                )
            } else {
                self.outcome
            },
            ..self
        }
    }

    /// Fewer known operators are eligible than keys are required.
    pub open spec fn short_of_keys(self) -> bool {
        self.eligible_pool < self.policy.required
    }
}

/// A hold that nothing has been cast on.
pub open spec fn fresh_hold(
    gate_id: Seq<char>,
    task_id: Seq<char>,
    diff_hash: Seq<u8>,
    policy: GatePolicy,
    makers: Set<OperatorId>,
    authorship: Authorship,
    contested: bool,
    eligible_pool: nat,
) -> HoldView {
    HoldView {
        gate_id,
        task_id,
        diff_hash,
        policy,
        makers,
        authorship,
        verdicts: seq![],
        version: 0,
        state: HoldState::Open,
        contested,
        eligible_pool,
        outcome: None,
    }
}

/// The dual-hold: one per gated action. Reaches `Satisfied` only on `go`
/// verdicts from distinct eligible operators, as many as its policy requires;
/// with two required it never clears on one key.
#[derive(Clone)]
pub struct DualHold {
    gate_id: GateId,
    task_id: TaskId,
    diff_hash: crate::ids::Hash,
    policy: GatePolicy,
    makers: MakerSet,
    authorship: Authorship,
    verdicts: Vec<SealedVerdict>,
    version: u64,
    state: HoldState,
    contested: bool,
    eligible_pool: usize,
    outcome: Option<Outcome>,
}

impl View for DualHold {
    type V = HoldView;

    closed spec fn view(&self) -> HoldView {
        HoldView {
            gate_id: self.gate_id@,
            task_id: self.task_id@,
            diff_hash: self.diff_hash.0@,
            policy: self.policy,
            makers: self.makers@,
            authorship: self.authorship,
            verdicts: self.verdicts@.map_values(|v: SealedVerdict| v.inner()),
            version: self.version as nat,
            state: self.state,
            contested: self.contested,
            eligible_pool: self.eligible_pool as nat,
            outcome: self.outcome,
        }
    }
}

impl DualHold {
    /// Each verdict is sealed exactly while the hold says so.
    pub closed spec fn seals_agree(&self) -> bool {
        forall|i: int|
            0 <= i < self.verdicts@.len() ==> (#[trigger] self.verdicts@[i]).hidden()
                == self@.sealed()
    }

    /// The invariant of every hold.
    pub open spec fn wf(&self) -> bool {
        self@.valid() && self.seals_agree()
    }

    pub fn new(
        gate_id: GateId,
        task_id: TaskId,
        diff_hash: crate::ids::Hash,
        policy: GatePolicy,
        makers: MakerSet,
        authorship: Authorship,
    ) -> (r: Self)
        ensures
            r.wf(),
            r@ == fresh_hold(
                gate_id@,
                task_id@,
                diff_hash.0@,
                policy,
                makers@,
                authorship,
                false,
                usize::MAX as nat,
            ),
    {
        DualHold {
            gate_id,
            task_id,
            diff_hash,
            policy,
            makers,
            authorship,
            verdicts: Vec::new(),
            version: 0,
            state: HoldState::Open,
            contested: false,
            eligible_pool: usize::MAX,
            outcome: None,
        }
    }

    /// A hold re-opened after an intervention (rejection or hand-edit). Marks
    /// the review gate contested so a later clear records `ResolvedAfterDisagreement`.
    pub fn reopen(
        gate_id: GateId,
        task_id: TaskId,
        diff_hash: crate::ids::Hash,
        policy: GatePolicy,
        makers: MakerSet,
        authorship: Authorship,
    ) -> (r: Self)
        ensures
            r.wf(),
            r@ == fresh_hold(
                gate_id@,
                task_id@,
                diff_hash.0@,
                policy,
                makers@,
                authorship,
                true,
                usize::MAX as nat,
            ),
    {
        let mut h = DualHold::new(gate_id, task_id, diff_hash, policy, makers, authorship);
        h.contested = true;
        h
    }

    /// A fresh hold opened after a hand-edit: authorship reflects human
    /// involvement, the editor joins the maker set (so strict mode excludes
    /// them), and the eligible pool is computed from the known operators. If
    /// that pool is smaller than the required keys, the hold reports
    /// `escalation_required` on the next cast.
    pub fn reopen_handedit(
        gate_id: GateId,
        task_id: TaskId,
        diff_hash: crate::ids::Hash,
        policy: GatePolicy,
        prior_makers: MakerSet,
        editor: OperatorId,
        agent_authored: bool,
        known_operators: &[OperatorId],
    ) -> (r: Self)
        ensures
            r.wf(),
            r@ == fresh_hold(
                gate_id@,
                task_id@,
                diff_hash.0@,
                policy,
                prior_makers@.insert(editor),
                if agent_authored {
                    Authorship::Both
                } else {
                    Authorship::HandEdited
                },
                true,
                match policy.independence {
                    Independence::Strict => count_outside(
                        known_operators@,
                        prior_makers@.insert(editor),
                    ),
                    Independence::Pragmatic => known_operators@.len(),
                },
            ),
    {
        let makers = prior_makers.with(editor);
        let authorship = if agent_authored {
            Authorship::Both
        } else {
            Authorship::HandEdited
        };
        let pool: usize = match policy.independence {
            Independence::Strict => count_non_makers(known_operators, &makers),
            Independence::Pragmatic => known_operators.len(),
        };
        let mut h = DualHold::reopen(gate_id, task_id, diff_hash, policy, makers, authorship);
        h.eligible_pool = pool;
        h
    }

    pub fn state(&self) -> (r: HoldState)
        ensures
            r == self@.state,
    {
        self.state
    }

    pub fn version(&self) -> (r: u64)
        ensures
            r == self@.version,
    {
        self.version
    }

    pub fn gate_id(&self) -> (r: &GateId)
        ensures
            r@ == self@.gate_id,
    {
        &self.gate_id
    }

    pub fn task_id(&self) -> (r: &TaskId)
        ensures
            r@ == self@.task_id,
    {
        &self.task_id
    }

    pub fn diff_hash(&self) -> (r: crate::ids::Hash)
        ensures
            r.0@ == self@.diff_hash,
    {
        self.diff_hash
    }

    pub fn authorship(&self) -> (r: Authorship)
        ensures
            r == self@.authorship,
    {
        self.authorship
    }

    pub fn policy(&self) -> (r: GatePolicy)
        ensures
            r == self@.policy,
    {
        self.policy
    }

    pub fn outcome(&self) -> (r: Option<Outcome>)
        ensures
            r == self@.outcome,
    {
        self.outcome
    }

    /// Externally observable verdicts: sealed values stay hidden.
    pub fn observed_verdicts(&self) -> (r: Vec<VerdictView>)
        requires
            self.wf(),
        ensures
            r@ == self@.observed(),
    {
        let mut r: Vec<VerdictView> = Vec::new();
        let mut i: usize = 0;
        while i < self.verdicts.len()
            invariant
                self.wf(),
                0 <= i <= self.verdicts.len(),
                r@.len() == i,
                forall|j: int| 0 <= j < i ==> r@[j] == self@.observed()[j],
            decreases self.verdicts.len() - i,
        {
            r.push(self.verdicts[i].view());
            i = i + 1;
        }
        r
    }

    /// Crate-internal: the raw cast verdicts, for building the audit record
    /// once the hold has resolved.
    pub(crate) fn raw_verdicts(&self) -> (r: &Vec<SealedVerdict>)
        ensures
            r@.map_values(|v: SealedVerdict| v.inner()) == self@.verdicts,
    {
        &self.verdicts
    }

    /// The operators who made the change under review.
    pub(crate) fn makers(&self) -> (r: &MakerSet)
        ensures
            r@ == self@.makers,
    {
        &self.makers
    }

    /// Did this operator cast on this hold?
    fn already_cast(&self, op: OperatorId) -> (r: bool)
        ensures
            r == has_cast(self@.verdicts, op),
    {
        let mut i: usize = 0;
        while i < self.verdicts.len()
            invariant
                0 <= i <= self.verdicts.len(),
                forall|j: int|
                    0 <= j < i ==> (#[trigger] self@.verdicts[j]).operator != op,
            decreases self.verdicts.len() - i,
        {
            if self.verdicts[i].operator() == op {
                assert(self@.verdicts[i as int].operator == op);
                return true;
            }
            i = i + 1;
        }
        false
    }

    /// Would a key of `op` be the last one needed, with none from a non-maker?
    fn co_signer_missing(&self, op: OperatorId) -> (r: bool)
        requires
            self.wf(),
        ensures
            r == self@.lacks_co_signer(op),
    {
        match self.policy.independence {
            Independence::Strict => {
                return false;
            },
            Independence::Pragmatic => {},
        }
        let required: usize = self.policy.required as usize;
        if required < 2 || self.verdicts.len() + 1 != required || !self.makers.contains(&op) {
            return false;
        }
        let mut i: usize = 0;
        while i < self.verdicts.len()
            invariant
                0 <= i <= self.verdicts.len(),
                forall|j: int|
                    0 <= j < i ==> self@.makers.contains((#[trigger] self@.verdicts[j]).operator),
            decreases self.verdicts.len() - i,
        {
            if !self.makers.contains(&self.verdicts[i].operator()) {
                assert(!self@.makers.contains(self@.verdicts[i as int].operator));
                return false;
            }
            i = i + 1;
        }
        true
    }

    /// Cast a signed verdict. See `CastRejected` for refusal reasons. On the
    /// last required verdict, evaluates the hold (blind: all hidden until now;
    /// non-blind: incremental).
    pub fn cast(&mut self, expected_version: u64, cv: CastVerdict) -> (r: Result<
        HoldOutcome,
        CastRejected,
    >)
        requires
            old(self).wf(),
        ensures
            final(self).wf(),
            match r {
                Err(e) => {
                    &&& old(self)@.refusal(expected_version, cv) == Some(e)
                    &&& final(self)@ == old(self)@
                },
                Ok(outcome) => {
                    &&& old(self)@.refusal(expected_version, cv) is None
                    &&& final(self)@ == old(self)@.after(cv)
                    &&& outcome.state == final(self)@.state
                    &&& outcome.escalation_required == final(self)@.short_of_keys()
                },
            },
    {
        if self.state.is_resolved() {
            return Err(CastRejected::AlreadyResolved);
        }
        if expected_version != self.version {
            return Err(
                CastRejected::StaleVersion { expected: expected_version, actual: self.version },
            );
        }
        if !cv.verify_signature(&self.gate_id, self.diff_hash) {
            return Err(CastRejected::BadSignature);
        }
        if self.already_cast(cv.operator) {
            return Err(CastRejected::DuplicateIdentity);
        }
        if !is_eligible(self.policy.independence, &self.makers, cv.operator) {
            return Err(CastRejected::Ineligible);
        }
        if self.co_signer_missing(cv.operator) {
            return Err(CastRejected::Ineligible);
        }
        let ghost before = *self;
        let ghost given = cv;
        proof {
            cast_keeps_validity(self@, cv);
        }
        let sealed = self.policy.blind;
        self.verdicts.push(SealedVerdict::new(cv, sealed));
        self.version = self.version + 1;
        assert(self@.verdicts =~= before@.verdicts.push(given));
        self.evaluate();
        Ok(HoldOutcome { state: self.state, escalation_required: self.escalation_required() })
    }

    /// Is any verdict a no-go?
    fn any_no_go(&self) -> (r: bool)
        ensures
            r == !all_go(self@.verdicts),
    {
        let mut i: usize = 0;
        while i < self.verdicts.len()
            invariant
                0 <= i <= self.verdicts.len(),
                forall|j: int| 0 <= j < i ==> (#[trigger] self@.verdicts[j]).verdict is Go,
            decreases self.verdicts.len() - i,
        {
            if !self.verdicts[i].raw().verdict.is_go() {
                assert(!(self@.verdicts[i as int].verdict is Go));
                return true;
            }
            i = i + 1;
        }
        false
    }

    /// Recompute state from the accumulated verdicts.
    fn evaluate(&mut self)
        requires
            old(self).verdicts@.len() <= 255,
            !old(self)@.state.is_final(),
            forall|i: int|
                0 <= i < old(self).verdicts@.len() ==> (
                #[trigger] old(self).verdicts@[i]).hidden() == old(self).policy.blind,
        ensures
            final(self).seals_agree(),
            final(self)@ == (HoldView {
                state: HoldView::decided(old(self)@.policy, old(self)@.verdicts),
                outcome: if HoldView::decided(
                    old(self)@.policy,
                    old(self)@.verdicts,
                ) is Satisfied {
                    Some(
                        if old(self)@.contested {
                            Outcome::ResolvedAfterDisagreement
                        } else {
                            Outcome::Unanimous
                        },
                    )
                } else {
                    old(self)@.outcome
                },
                ..old(self)@
            }),
    {
        let have: u8 = self.verdicts.len() as u8;
        let required: u8 = self.policy.required;
        let no_go = self.any_no_go();
        if !self.policy.blind {
            if no_go {
                self.block();
                return;
            }
        }
        if have < required {
            self.state = HoldState::Partial;
            return;
        }
        if no_go {
            self.block();
        } else {
            self.unseal_all();
            self.state = HoldState::Satisfied;
            self.outcome = Some(
                if self.contested {
                    Outcome::ResolvedAfterDisagreement
                } else {
                    Outcome::Unanimous
                },
            );
        }
    }

    /// Reveal every verdict.
    fn unseal_all(&mut self)
        ensures
            final(self)@ == old(self)@,
            final(self).verdicts@.len() == old(self).verdicts@.len(),
            forall|i: int|
                0 <= i < final(self).verdicts@.len() ==> !(
                #[trigger] final(self).verdicts@[i]).hidden(),
    {
        let mut i: usize = 0;
        while i < self.verdicts.len()
            invariant
                0 <= i <= self.verdicts.len(),
                self.verdicts@.len() == old(self).verdicts@.len(),
                forall|j: int| 0 <= j < i ==> !(#[trigger] self.verdicts@[j]).hidden(),
                forall|j: int|
                    0 <= j < self.verdicts@.len() ==> (#[trigger] self.verdicts@[j]).inner()
                        == old(self).verdicts@[j].inner(),
                *self == (DualHold { verdicts: self.verdicts, ..*old(self) }),
            decreases self.verdicts.len() - i,
        {
            self.verdicts[i].unseal();
            i = i + 1;
        }
    }

    fn block(&mut self)
        ensures
            final(self)@ == (HoldView { state: HoldState::Blocked, ..old(self)@ }),
            final(self).seals_agree(),
    {
        self.unseal_all();
        self.state = HoldState::Blocked;
    }

    /// If the hold is blocked by a no-go, the remedy that must drive the
    /// rework/replan ripple. `None` unless blocked with a no-go verdict.
    pub fn blocking_remedy(&self) -> (r: Option<Remedy>)
        ensures
            r == (if self@.state is Blocked {
                first_remedy(self@.verdicts)
            } else {
                None
            }),
    {
        if self.state != HoldState::Blocked {
            return None;
        }
        let mut i: usize = 0;
        assert(self@.verdicts.skip(0) =~= self@.verdicts);
        while i < self.verdicts.len()
            invariant
                0 <= i <= self.verdicts.len(),
                self@.state is Blocked,
                first_remedy(self@.verdicts) == first_remedy(self@.verdicts.skip(i as int)),
            decreases self.verdicts.len() - i,
        {
            let ghost rest = self@.verdicts.skip(i as int);
            assert(rest.skip(1) =~= self@.verdicts.skip(i as int + 1));
            match &self.verdicts[i].raw().verdict {
                Verdict::NoGo(remedy) => {
                    return Some(remedy.clone());
                },
                Verdict::Go => {},
            }
            i = i + 1;
        }
        None
    }

    /// Strict independence with fewer eligible operators than required keys
    /// cannot clear: the caller must escalate. Signal only.
    pub fn escalation_required(&self) -> (r: bool)
        ensures
            r == self@.short_of_keys(),
    {
        self.eligible_pool < self.policy.required as usize
    }
}

/// A cast that is not refused keeps the invariant.
proof fn cast_keeps_validity(h: HoldView, cv: CastVerdict)
    requires
        h.valid(),
        h.refusal(h.version as u64, cv) is None,
    ensures
        h.after(cv).valid(),
        h.verdicts.len() < 255,
{
    let after = h.after(cv).verdicts;
    if h.makers.contains(cv.operator) {
        if !all_by(h.verdicts, h.makers) {
            let i = choose|i: int|
                0 <= i < h.verdicts.len() && !h.makers.contains((#[trigger] h.verdicts[i]).operator);
            assert(after[i] == h.verdicts[i]);
        }
    } else {
        assert(after[h.verdicts.len() as int] == cv);
    }
}

/// A satisfied hold carries as many valid, eligible go verdicts as its policy
/// requires, each from another operator.
pub proof fn satisfied_needs_every_key(h: HoldView)
    requires
        h.valid(),
        h.state is Satisfied,
    ensures
        h.verdicts.len() >= h.policy.required,
        distinct_operators(h.verdicts),
        forall|i: int|
            0 <= i < h.verdicts.len() ==> {
                &&& (#[trigger] h.verdicts[i]).verdict is Go
                &&& h.verdicts[i].signature_holds(h.gate_id, h.diff_hash)
                &&& eligible(h.policy.independence, h.makers, h.verdicts[i].operator)
            },
{
}

/// Where two keys are required, a satisfied hold has exactly two verdicts,
/// both go, from two different operators.
pub proof fn two_keys_satisfy(h: HoldView)
    requires
        h.valid(),
        h.state is Satisfied,
        h.policy.required == 2,
    ensures
        h.verdicts.len() == 2,
        h.verdicts[0].verdict is Go,
        h.verdicts[1].verdict is Go,
        h.verdicts[0].operator != h.verdicts[1].operator,
{
}

/// Where two keys are required, one key alone never satisfies: the first cast
/// leaves the hold undecided or blocked, with no outcome.
pub proof fn one_key_never_satisfies(h: HoldView, cv: CastVerdict)
    requires
        h.valid(),
        h.state is Open,
        h.policy.required >= 2,
    ensures
        !(h.after(cv).state is Satisfied),
        h.after(cv).outcome is None,
        h.policy.blind ==> h.after(cv).state is Partial,
{
}

/// While review is blind and undecided, what is observed of the verdicts is
/// the same whatever they decide, as long as the same operators cast them.
pub proof fn blind_review_shows_no_value(a: HoldView, b: HoldView)
    requires
        a.sealed(),
        b.sealed(),
        a.verdicts.len() == b.verdicts.len(),
        forall|i: int|
            0 <= i < a.verdicts.len() ==> (#[trigger] a.verdicts[i]).operator
                == b.verdicts[i].operator,
    ensures
        a.observed() == b.observed(),
        forall|i: int|
            0 <= i < a.observed().len() ==> (#[trigger] a.observed()[i]).status
                is Sealed,
{
}

/// A resolved hold is immutable: every further cast is refused.
pub proof fn resolved_takes_no_cast(h: HoldView, expected_version: u64, cv: CastVerdict)
    requires
        h.state.is_final(),
    ensures
        h.refusal(expected_version, cv) == Some(CastRejected::AlreadyResolved),
{
}

/// Under strict independence no verdict of a hold is from a maker.
pub proof fn strict_excludes_makers(h: HoldView, i: int)
    requires
        h.valid(),
        h.policy.independence is Strict,
        0 <= i < h.verdicts.len(),
    ensures
        !h.makers.contains(h.verdicts[i].operator),
{
}

/// With two or more keys required, of the keys that satisfy a hold one is
/// somebody else's than `maker`'s; and under pragmatic independence one is
/// from outside the makers.
pub proof fn lone_maker_never_satisfies(h: HoldView, maker: OperatorId)
    requires
        h.valid(),
        h.state is Satisfied,
        h.policy.required >= 2,
    ensures
        exists|i: int| 0 <= i < h.verdicts.len() && (#[trigger] h.verdicts[i]).operator != maker,
        h.policy.independence is Pragmatic ==> exists|i: int|
            0 <= i < h.verdicts.len() && !h.makers.contains((#[trigger] h.verdicts[i]).operator),
{
    assert(h.verdicts[0].operator != h.verdicts[1].operator);
}

/// Where a maker may cast, a non-maker is never refused as ineligible, and a
/// maker only as the last key after none but makers.
pub proof fn pragmatic_refuses_only_the_last_maker(
    h: HoldView,
    expected_version: u64,
    cv: CastVerdict,
)
    requires
        h.valid(),
        h.policy.independence is Pragmatic,
        h.refusal(expected_version, cv) == Some(CastRejected::Ineligible),
    ensures
        h.makers.contains(cv.operator),
        h.policy.required >= 2,
        h.verdicts.len() + 1 == h.policy.required,
        all_by(h.verdicts, h.makers),
{
}

/// A blocked hold names its remedy: a no-go always carries one.
pub proof fn blocked_has_a_remedy(h: HoldView)
    requires
        h.valid(),
        h.state is Blocked,
    ensures
        first_remedy(h.verdicts) is Some,
{
    no_go_has_a_remedy(h.verdicts);
}

proof fn no_go_has_a_remedy(verdicts: Seq<CastVerdict>)
    requires
        !all_go(verdicts),
    ensures
        first_remedy(verdicts) is Some,
    decreases verdicts.len(),
{
    if verdicts.len() > 0 && verdicts[0].verdict is Go {
        let i = choose|i: int| 0 <= i < verdicts.len() && !((#[trigger] verdicts[i]).verdict is Go);
        assert(verdicts.skip(1)[i - 1] == verdicts[i]);
        no_go_has_a_remedy(verdicts.skip(1));
    }
}

/// A hold that was opened again after a disagreement never records a
/// unanimous outcome.
pub proof fn contested_is_never_unanimous(h: HoldView)
    requires
        h.valid(),
        h.contested,
    ensures
        h.outcome != Some(Outcome::Unanimous),
{
}

/// A cast is refused for cause and for no other: a resolved hold takes none, one
/// made for another version is stale, a signature that does not hold counts for
/// nobody, nobody casts twice, a maker casts only where the policy lets them,
/// and never as the last of makers alone. Of several causes the first in this
/// order is given.
pub proof fn casts_are_refused_for_cause(h: HoldView, expected_version: u64, cv: CastVerdict)
    ensures
        ({
            let resolved = h.state == HoldState::Satisfied || h.state == HoldState::Blocked;
            let stale = expected_version != h.version;
            let forged = !cv.signature_holds(h.gate_id, h.diff_hash);
            let again = exists|k: int|
                0 <= k < h.verdicts.len() && (#[trigger] h.verdicts[k]).operator == cv.operator;
            let made = h.makers.contains(cv.operator);
            let barred = h.policy.independence == Independence::Strict && made;
            let alone = h.policy.independence == Independence::Pragmatic && h.policy.required >= 2
                && h.verdicts.len() + 1 == h.policy.required && made && forall|k: int|
                0 <= k < h.verdicts.len() ==> h.makers.contains(
                    (#[trigger] h.verdicts[k]).operator,
                );
            let answer = h.refusal(expected_version, cv);
            &&& answer == Some(CastRejected::AlreadyResolved) <==> resolved
            &&& answer == Some(
                CastRejected::StaleVersion { expected: expected_version, actual: h.version as u64 },
            ) <==> !resolved && stale
            &&& answer == Some(CastRejected::BadSignature) <==> !resolved && !stale && forged
            &&& answer == Some(CastRejected::DuplicateIdentity) <==> !resolved && !stale && !forged
                && again
            &&& answer == Some(CastRejected::Ineligible) <==> !resolved && !stale && !forged
                && !again && (barred || alone)
            &&& answer is None <==> !resolved && !stale && !forged && !again && !barred && !alone
        }),
{
}

/// The verdicts decide: with fewer than are required a hold waits, with all of
/// them it is satisfied where each is a go and blocked where one is not, and
/// without blind review a no-go blocks it at once. A satisfied hold says whether
/// it was contested. Nothing else of it changes.
pub proof fn verdicts_decide(h: HoldView, cv: CastVerdict)
    ensures
        ({
            let after = h.after(cv);
            let dissent = exists|k: int|
                0 <= k < after.verdicts.len() && (#[trigger] after.verdicts[k]).verdict is NoGo;
            let all_in = h.verdicts.len() + 1 >= h.policy.required;
            &&& after.verdicts.len() == h.verdicts.len() + 1
            &&& after.verdicts.last() == cv
            &&& after.verdicts.drop_last() == h.verdicts
            &&& after.version == h.version + 1
            &&& after.state == HoldState::Partial <==> !all_in && (h.policy.blind || !dissent)
            &&& after.state == HoldState::Satisfied <==> all_in && !dissent
            &&& after.state == HoldState::Blocked <==> dissent && (all_in || !h.policy.blind)
            &&& after.state == HoldState::Satisfied && h.contested ==> after.outcome == Some(
                Outcome::ResolvedAfterDisagreement,
            )
            &&& after.state == HoldState::Satisfied && !h.contested ==> after.outcome == Some(
                Outcome::Unanimous,
            )
            &&& after.state != HoldState::Satisfied ==> after.outcome == h.outcome
            &&& after == (HoldView {
                verdicts: after.verdicts,
                version: after.version,
                state: after.state,
                outcome: after.outcome,
                ..h
            })
        }),
{
    let after = h.after(cv);
    assert(after.verdicts.drop_last() =~= h.verdicts);
    assert(all_go(after.verdicts) == !(exists|k: int|
        0 <= k < after.verdicts.len() && (#[trigger] after.verdicts[k]).verdict is NoGo));
}

/// The remedy of a blocked hold is the first dissenter's own, whatever was cast
/// after it; without a no-go there is none.
pub proof fn first_dissent_gives_the_remedy(verdicts: Seq<CastVerdict>, k: int)
    requires
        0 <= k <= verdicts.len(),
        forall|j: int| 0 <= j < k ==> (#[trigger] verdicts[j]).verdict is Go,
        k < verdicts.len() ==> verdicts[k].verdict is NoGo,
    ensures
        k < verdicts.len() ==> first_remedy(verdicts) == Some(verdicts[k].verdict->NoGo_0),
        k == verdicts.len() ==> first_remedy(verdicts) is None,
    decreases k,
{
    if k > 0 {
        let rest = verdicts.skip(1);
        assert forall|j: int| 0 <= j < k - 1 implies (#[trigger] rest[j]).verdict is Go by {
            assert(rest[j] == verdicts[j + 1]);
        }
        assert(verdicts[0].verdict is Go);
        first_dissent_gives_the_remedy(rest, k - 1);
    }
}

/// What may be observed of a hold: who has cast, in order, and what they cast
/// once it is resolved or where review is not blind.
pub proof fn observers_see_who_cast(h: HoldView, i: int)
    requires
        0 <= i < h.verdicts.len(),
    ensures
        h.observed().len() == h.verdicts.len(),
        h.observed()[i].operator == h.verdicts[i].operator,
        h.policy.blind && h.state != HoldState::Satisfied && h.state != HoldState::Blocked
            ==> h.observed()[i].status is Sealed,
        !h.policy.blind || h.state == HoldState::Satisfied || h.state == HoldState::Blocked
            ==> h.observed()[i].status == crate::sealed::VerdictStatus::Revealed(
            h.verdicts[i].verdict,
        ),
{
}

/// A new hold is over what it was made for, and nobody has cast on it.
pub proof fn new_holds_are_open(
    gate_id: Seq<char>,
    task_id: Seq<char>,
    diff_hash: Seq<u8>,
    policy: GatePolicy,
    makers: Set<OperatorId>,
    authorship: Authorship,
    contested: bool,
    eligible_pool: nat,
)
    ensures
        ({
            let h = fresh_hold(
                gate_id,
                task_id,
                diff_hash,
                policy,
                makers,
                authorship,
                contested,
                eligible_pool,
            );
            &&& h.gate_id == gate_id
            &&& h.task_id == task_id
            &&& h.diff_hash == diff_hash
            &&& h.policy == policy
            &&& h.makers == makers
            &&& h.authorship == authorship
            &&& h.contested == contested
            &&& h.eligible_pool == eligible_pool
            &&& h.verdicts.len() == 0
            &&& h.version == 0
            &&& h.state == HoldState::Open
            &&& h.outcome is None
            &&& h.short_of_keys() <==> eligible_pool < policy.required
        }),
{
}

} // verus!
