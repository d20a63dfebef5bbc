//! The station's side of a session: who it is, what it sends, and how it reads
//! the handshake.
use vstd::prelude::*;

use crate::ids::{OperatorId, Timestamp};
use crate::protocol::{ClientMsg, ServerMsg, WireGate, PROTOCOL_VERSION};
use crate::sign::{Clock, Ed25519Signer, Signer};
use crate::text::{copy_texts, texts};
use crate::verdict::{CastVerdict, Remedy, ReviewDepth, Verdict};

verus! {

/// `SystemTime::elapsed` of `UNIX_EPOCH`: the time since the Unix epoch by the
/// machine's clock, or none where that clock is set before it. Nothing holds of
/// every reading.
#[verifier::external_body]
fn since_epoch() -> (r: Option<std::time::Duration>) {
    std::time::UNIX_EPOCH.elapsed().ok()
}

/// `Duration::as_millis`: the whole milliseconds of a span of time. The span
/// itself is the clock's, so nothing is stated of the number.
pub assume_specification[ std::time::Duration::as_millis ](span: &std::time::Duration) -> (r: u128)
;

/// The timestamp of a number of milliseconds since the epoch: the number, as
/// far as it fits; the epoch itself where there is none.
pub open spec fn stamp_of(millis: Option<u128>) -> Timestamp {
    Timestamp(
        match millis {
            Some(m) => m as i64,
            None => 0,
        },
    )
}

/// The timestamp of a number of milliseconds since the epoch.
pub fn stamp(millis: Option<u128>) -> (r: Timestamp)
    ensures
        r == stamp_of(millis),
        millis matches Some(m) ==> m <= i64::MAX ==> r.0 == m,
        millis is None ==> r.0 == 0,
{
    match millis {
        Some(m) => Timestamp(
            #[verifier::truncate]
            (m as i64),
        ),
        None => Timestamp(0),
    }
}

/// Wall-clock time source: milliseconds since the Unix epoch.
pub struct SystemClock;

impl Clock for SystemClock {
    /// The wall clock may show any time.
    open spec fn shows(&self, t: Timestamp) -> bool {
        true
    }

    fn now(&self) -> (r: Timestamp) {
        match since_epoch() {
            Some(span) => stamp(Some(span.as_millis())),
            None => stamp(None),
        }
    }
}

/// Client-side session handle: the operator's signing key. The private key
/// never leaves the client process.
pub struct SessionClient {
    signer: Ed25519Signer,
}

/// A cast on a gate by this signer: signed over the review gate and the diff that the
/// operator was shown.
pub open spec fn casts(
    signer: Ed25519Signer,
    gate: WireGate,
    verdict: Verdict,
    depth: ReviewDepth,
    cv: CastVerdict,
) -> bool {
    &&& signer.speaks_for(cv.operator)
    &&& cv.verdict == verdict
    &&& cv.depth == depth
    &&& cv.comment is None
    &&& signer.signs(cv.signed_bytes(gate.gate_id@, gate.diff_hash.0@), cv.signature)
    &&& cv.signature_holds(gate.gate_id@, gate.diff_hash.0@)
}

impl SessionClient {
    /// The key that the station signs with.
    pub closed spec fn key(&self) -> Ed25519Signer {
        self.signer
    }

    pub fn new(seed: [u8; 32]) -> (r: Self)
        ensures
            r.key().seed() == seed@,
    {
        SessionClient { signer: Ed25519Signer::from_seed(seed) }
    }

    pub fn operator(&self) -> (r: OperatorId)
        ensures
            self.key().speaks_for(r),
    {
        self.signer.operator_id()
    }

    /// The first message of a connection.
    pub fn hello(&self, seat: &str) -> (r: ClientMsg)
        ensures
            r matches ClientMsg::Hello { seat: s, operator, protocol } && s@ == seat@
                && self.key().speaks_for(operator) && protocol == PROTOCOL_VERSION,
    {
        ClientMsg::Hello {
            seat: seat.to_owned(),
            operator: self.signer.operator_id(),
            protocol: PROTOCOL_VERSION,
        }
    }

    pub fn ready(&self) -> (r: ClientMsg)
        ensures
            r is Ready,
    {
        ClientMsg::Ready
    }

    pub fn hand_edit(&self, path: &str, contents: &str) -> (r: ClientMsg)
        ensures
            r matches ClientMsg::HandEdit { path: p, contents: c } && p@ == path@ && c@
                == contents@,
    {
        ClientMsg::HandEdit { path: path.to_owned(), contents: contents.to_owned() }
    }

    pub fn abandon(&self) -> (r: ClientMsg)
        ensures
            r is Abandon,
    {
        ClientMsg::Abandon
    }

    /// A prompt edit. Valid only during dispatch composition; the server rejects
    /// it otherwise and resets both ready flags on acceptance.
    pub fn set_prompt(&self, prompt: &str) -> (r: ClientMsg)
        ensures
            r matches ClientMsg::SetPrompt { prompt: p } && p@ == prompt@,
    {
        ClientMsg::SetPrompt { prompt: prompt.to_owned() }
    }

    /// Replace the plan with an edited task list. Valid only during plan
    /// review; the server rejects it otherwise and resets both ready flags on
    /// acceptance.
    pub fn edit_plan(&self, tasks: &Vec<String>) -> (r: ClientMsg)
        ensures
            r matches ClientMsg::EditPlan { tasks: t } && texts(t@) == texts(tasks@),
    {
        ClientMsg::EditPlan { tasks: copy_texts(tasks) }
    }

    /// A plan steer to the agent. Valid only during plan review.
    pub fn steer_plan(&self, steer: &str) -> (r: ClientMsg)
        ensures
            r matches ClientMsg::SteerPlan { steer: s } && s@ == steer@,
    {
        ClientMsg::SteerPlan { steer: steer.to_owned() }
    }

    /// Request the current worktree contents of a file. The response arrives
    /// as `ServerMsg::FileContent`.
    pub fn fetch_file(&self, path: &str) -> (r: ClientMsg)
        ensures
            r matches ClientMsg::FetchFile { path: p } && p@ == path@,
    {
        ClientMsg::FetchFile { path: path.to_owned() }
    }

    /// Sign a Go verdict against the review gate as it is shown.
    pub fn cast_go(&self, gate: &WireGate, depth: ReviewDepth) -> (r: ClientMsg)
        ensures
            r matches ClientMsg::Cast { gate_id, verdict } && gate_id == gate.gate_id && casts(
                self.key(),
                *gate,
                Verdict::Go,
                depth,
                verdict,
            ),
    {
        let verdict = self.build_verdict(&SystemClock, gate, Verdict::Go, depth);
        ClientMsg::Cast { gate_id: gate.gate_id.clone(), verdict }
    }

    /// Sign a NoGo verdict with a Steer remedy.
    pub fn cast_nogo(&self, gate: &WireGate, steer: &str, depth: ReviewDepth) -> (r: ClientMsg)
        ensures
            r matches ClientMsg::Cast { gate_id, verdict } && gate_id == gate.gate_id && (
            verdict.verdict matches Verdict::NoGo(Remedy::Steer(s)) && s@ == steer@) && casts(
                self.key(),
                *gate,
                verdict.verdict,
                depth,
                verdict,
            ),
    {
        let no_go = Verdict::NoGo(Remedy::Steer(steer.to_owned()));
        let verdict = self.build_verdict(&SystemClock, gate, no_go, depth);
        ClientMsg::Cast { gate_id: gate.gate_id.clone(), verdict }
    }

    /// Sign a verdict against the review gate as it is shown.
    pub fn build_verdict<C: Clock>(
        &self,
        clock: &C,
        gate: &WireGate,
        v: Verdict,
        depth: ReviewDepth,
    ) -> (r: CastVerdict)
        ensures
            casts(self.key(), *gate, v, depth, r),
            clock.shows(r.cast_at),
    {
        CastVerdict::create(&self.signer, clock, &gate.gate_id, gate.diff_hash, v, depth, None)
    }
}

/// What a message means before the connection is seated.
#[derive(Debug)]
pub enum Handshake {
    Seated,
    Refused(String),
    Closed(String),
    /// An early message to hand on.
    Early(ServerMsg),
}

/// What a message means before the connection is seated; no message means that
/// the server has closed it.
pub fn handshake(msg: Option<ServerMsg>) -> (r: Handshake)
    ensures
        match msg {
            None => r matches Handshake::Closed(words) && words@
                == "server closed connection before Welcome"@,
            Some(ServerMsg::Welcome { .. }) => r is Seated,
            Some(ServerMsg::Rejected { reason }) => r == Handshake::Refused(reason),
            Some(other) => r == Handshake::Early(other),
        },
{
    match msg {
        None => Handshake::Closed("server closed connection before Welcome".to_owned()),
        Some(ServerMsg::Welcome { .. }) => Handshake::Seated,
        Some(ServerMsg::Rejected { reason }) => Handshake::Refused(reason),
        Some(other) => Handshake::Early(other),
    }
}

/// A cast is the signer's own, says what the operator decided and how far they
/// looked, without a comment, and is signed over the very gate and diff that they
/// were shown.
pub proof fn casts_are_over_what_was_shown(
    signer: Ed25519Signer,
    gate: WireGate,
    verdict: Verdict,
    depth: ReviewDepth,
    cv: CastVerdict,
)
    requires
        casts(signer, gate, verdict, depth, cv),
    ensures
        signer.speaks_for(cv.operator),
        cv.verdict == verdict,
        cv.depth == depth,
        cv.comment is None,
        cv.signature_holds(gate.gate_id@, gate.diff_hash.0@),
{
}

/// A time before what a timestamp holds runs out is kept to the millisecond.
pub proof fn times_are_kept_to_the_millisecond(millis: u128)
    requires
        millis <= i64::MAX,
    ensures
        stamp_of(Some(millis)).0 == millis,
        stamp_of(None).0 == 0,
{
}

} // verus!
