//! Sealed verdicts: blind review.
use vstd::prelude::*;

use crate::ids::OperatorId;
use crate::text::{debug_text, decimal, decimal_spec, quoted};
use crate::verdict::{CastVerdict, Remedy, Verdict};

verus! {

/// A cast verdict whose value is hidden while `sealed` is true (blind review).
/// The operator identity is always visible (needed for deduplication and
/// eligibility); the *verdict* is not.
pub struct SealedVerdict {
    cv: CastVerdict,
    sealed: bool,
}

impl Clone for SealedVerdict {
    fn clone(&self) -> (r: Self)
        ensures
            r == *self,
    {
        SealedVerdict { cv: self.cv.clone(), sealed: self.sealed }
    }
}

/// What an external observer is permitted to see about a cast verdict.
#[derive(PartialEq, Eq, Debug)]
pub enum VerdictStatus {
    Sealed,
    Revealed(Verdict),
}

impl Clone for VerdictStatus {
    fn clone(&self) -> (r: Self)
        ensures
            r == *self,
    {
        match self {
            VerdictStatus::Sealed => VerdictStatus::Sealed,
            VerdictStatus::Revealed(v) => VerdictStatus::Revealed(v.clone()),
        }
    }
}

/// A projection of a cast verdict safe to show or log.
#[derive(PartialEq, Eq, Debug)]
pub struct VerdictView {
    pub operator: OperatorId,
    pub status: VerdictStatus,
}

impl Clone for VerdictView {
    fn clone(&self) -> (r: Self)
        ensures
            r == *self,
    {
        VerdictView { operator: self.operator, status: self.status.clone() }
    }
}

/// What may be shown of `cv` while it is sealed, and once it is not.
pub open spec fn projection(cv: CastVerdict, sealed: bool) -> VerdictView {
    VerdictView {
        operator: cv.operator,
        status: if sealed {
            VerdictStatus::Sealed
        } else {
            VerdictStatus::Revealed(cv.verdict)
        },
    }
}

/// The bytes of a list, in decimal.
pub open spec fn listed(bytes: Seq<u8>) -> Seq<char>
    decreases bytes.len(),
{
    if bytes.len() == 0 {
        seq![]
    } else if bytes.len() == 1 {
        decimal_spec(bytes[0] as nat)
    } else {
        listed(bytes.drop_last()) + ", "@ + decimal_spec(bytes.last() as nat)
    }
}

/// One named field of a description.
pub open spec fn field_text(name: Seq<char>, shown: Seq<char>) -> Seq<char> {
    name + ": "@ + shown
}

/// What a no-go says: its steer, or the change it refers to.
pub open spec fn remedy_note(verdict: Verdict) -> Seq<char> {
    match verdict {
        Verdict::Go => seq![],
        Verdict::NoGo(Remedy::Steer(s)) => s@,
        Verdict::NoGo(Remedy::HandEdit(h)) => h.0@,
    }
}

/// A verdict with its remedy, where `quoted` is the remedy's note in quotes.
pub open spec fn verdict_text(verdict: Verdict, quoted: Seq<char>) -> Seq<char> {
    match verdict {
        Verdict::Go => "Go"@,
        Verdict::NoGo(Remedy::Steer(_)) => "NoGo(Steer("@ + quoted + "))"@,
        Verdict::NoGo(Remedy::HandEdit(_)) => "NoGo(HandEdit(HandEditRef("@ + quoted + ")))"@,
    }
}

/// The redacted description of a cast verdict, where `quoted` is the note of its
/// remedy in quotes.
pub open spec fn description(cv: CastVerdict, sealed: bool, quoted: Seq<char>) -> Seq<char> {
    "SealedVerdict { "@ + field_text(
        "operator"@,
        "OperatorId(["@ + listed(cv.operator.0@) + "])"@,
    ) + ", "@ + field_text(
        "verdict"@,
        if sealed {
            "\"<sealed>\""@
        } else {
            verdict_text(cv.verdict, quoted)
        },
    ) + ", "@ + field_text(
        "sealed"@,
        if sealed {
            "true"@
        } else {
            "false"@
        },
    ) + " }"@
}

/// The bytes of a list, in decimal.
fn list_bytes(bytes: &[u8]) -> (r: String)
    ensures
        r@ == listed(bytes@),
{
    let mut r = String::new();
    let mut i: usize = 0;
    while i < bytes.len()
        invariant
            0 <= i <= bytes.len(),
            r@ == listed(bytes@.take(i as int)),
        decreases bytes.len() - i,
    {
        let ghost step = bytes@.take(i as int + 1);
        assert(step.drop_last() =~= bytes@.take(i as int));
        let n = decimal(bytes[i] as u64);
        r = if i == 0 {
            n
        } else {
            r.concat(", ").concat(n.as_str())
        };
        i = i + 1;
    }
    assert(bytes@.take(i as int) =~= bytes@);
    r
}

/// One named field of a description.
fn show_field(name: &str, shown: &str) -> (r: String)
    ensures
        r@ == field_text(name@, shown@),
{
    name.to_owned().concat(": ").concat(shown)
}

/// A verdict with its remedy.
fn show_verdict(verdict: &Verdict, quoted: &str) -> (r: String)
    ensures
        r@ == verdict_text(*verdict, quoted@),
{
    match verdict {
        Verdict::Go => "Go".to_owned(),
        Verdict::NoGo(Remedy::Steer(_)) => "NoGo(Steer(".to_owned().concat(quoted).concat("))"),
        Verdict::NoGo(Remedy::HandEdit(_)) => "NoGo(HandEdit(HandEditRef(".to_owned().concat(
            quoted,
        ).concat(")))"),
    }
}

impl SealedVerdict {
    /// The verdict inside, sealed or not.
    pub closed spec fn inner(&self) -> CastVerdict {
        self.cv
    }

    pub closed spec fn hidden(&self) -> bool {
        self.sealed
    }

    pub fn new(cv: CastVerdict, sealed: bool) -> (r: Self)
        ensures
            r.inner() == cv,
            r.hidden() == sealed,
    {
        SealedVerdict { cv, sealed }
    }

    pub fn operator(&self) -> (r: OperatorId)
        ensures
            r == self.inner().operator,
    {
        self.cv.operator
    }

    /// The only public way to read the verdict value: returns `None` while
    /// sealed. Logs, queries, and API responses must go through this.
    pub fn revealed(&self) -> (r: Option<&CastVerdict>)
        ensures
            r == (if self.hidden() {
                None
            } else {
                Some(&self.inner())
            }),
    {
        if self.sealed {
            None
        } else {
            Some(&self.cv)
        }
    }

    /// Crate-internal access for the hold's own evaluation logic. Not public,
    /// so no external caller can bypass the seal.
    pub(crate) fn raw(&self) -> (r: &CastVerdict)
        ensures
            *r == self.inner(),
    {
        &self.cv
    }

    pub fn unseal(&mut self)
        ensures
            final(self).inner() == old(self).inner(),
            !final(self).hidden(),
    {
        self.sealed = false;
    }

    pub fn is_sealed(&self) -> (r: bool)
        ensures
            r == self.hidden(),
    {
        self.sealed
    }

    pub fn view(&self) -> (r: VerdictView)
        ensures
            r == projection(self.inner(), self.hidden()),
    {
        VerdictView {
            operator: self.operator(),
            status: match self.revealed() {
                Some(cv) => VerdictStatus::Revealed(cv.verdict.clone()),
                None => VerdictStatus::Sealed,
            },
        }
    }

    /// A description for logs: a sealed verdict shows no value.
    pub fn describe(&self) -> (r: String)
        ensures
            r@ == description(
                self.inner(),
                self.hidden(),
                debug_text(remedy_note(self.inner().verdict)),
            ),
    {
        let note = match &self.cv.verdict {
            Verdict::Go => "",
            Verdict::NoGo(Remedy::Steer(s)) => s.as_str(),
            Verdict::NoGo(Remedy::HandEdit(h)) => h.0.as_str(),
        };
        proof {
            reveal_strlit("");
            assert(""@ =~= Seq::<char>::empty());
        }
        let shown = quoted(note);
        self.describe_with(shown.as_str())
    }

    /// The description, given the note of the verdict's remedy in quotes.
    pub fn describe_with(&self, quoted: &str) -> (r: String)
        ensures
            r@ == description(self.inner(), self.hidden(), quoted@),
    {
        let key = "OperatorId([".to_owned().concat(
            list_bytes(self.cv.operator.0.as_slice()).as_str(),
        ).concat("])");
        let value = if self.sealed {
            "\"<sealed>\"".to_owned()
        } else {
            show_verdict(&self.cv.verdict, quoted)
        };
        let flag = if self.sealed {
            "true"
        } else {
            "false"
        };
        "SealedVerdict { ".to_owned().concat(show_field("operator", key.as_str()).as_str()).concat(
            ", ",
        ).concat(show_field("verdict", value.as_str()).as_str()).concat(", ").concat(
            show_field("sealed", flag).as_str(),
        ).concat(" }")
    }
}

/// What is shown of a sealed verdict does not depend on its value: two sealed
/// verdicts of one operator look the same, whatever they decide.
pub proof fn sealed_value_never_shows(
    a: CastVerdict,
    b: CastVerdict,
    quoted: Seq<char>,
    other: Seq<char>,
)
    requires
        a.operator == b.operator,
    ensures
        projection(a, true) == projection(b, true),
        description(a, true, quoted) == description(b, true, other),
{
}

// ---------------------------------------------------------------------------
// Laws
// ---------------------------------------------------------------------------
/// Bytes are listed in order, each in decimal, with a comma and a blank between
/// two of them.
pub proof fn bytes_are_listed_in_order(bytes: Seq<u8>, b: u8)
    ensures
        listed(Seq::empty()).len() == 0,
        listed(seq![b]) == decimal_spec(b as nat),
        bytes.len() > 0 ==> listed(bytes.push(b)) == listed(bytes) + ", "@ + decimal_spec(b as nat),
{
    assert(bytes.push(b).drop_last() =~= bytes);
}

/// A sealed verdict is described by its operator alone: whatever was cast, the
/// words are the same.
pub proof fn sealed_verdicts_are_described_alike(
    a: CastVerdict,
    b: CastVerdict,
    quoted_a: Seq<char>,
    quoted_b: Seq<char>,
)
    requires
        a.operator == b.operator,
    ensures
        description(a, true, quoted_a) == description(b, true, quoted_b),
        description(a, true, quoted_a) == "SealedVerdict { "@ + ("operator"@ + ": "@ + (
        "OperatorId(["@ + listed(a.operator.0@) + "])"@)) + ", "@ + ("verdict"@ + ": "@
            + "\"<sealed>\""@) + ", "@ + ("sealed"@ + ": "@ + "true"@) + " }"@,
{
}

/// An unsealed verdict is described by its operator and what was cast, and that it
/// is not sealed.
pub proof fn unsealed_verdicts_are_described_in_full(cv: CastVerdict, quoted: Seq<char>)
    ensures
        ({
            let said = match cv.verdict {
                Verdict::Go => "Go"@,
                Verdict::NoGo(Remedy::Steer(_)) => "NoGo(Steer("@ + quoted + "))"@,
                Verdict::NoGo(Remedy::HandEdit(_)) => "NoGo(HandEdit(HandEditRef("@ + quoted
                    + ")))"@,
            };
            description(cv, false, quoted) == "SealedVerdict { "@ + ("operator"@ + ": "@ + (
            "OperatorId(["@ + listed(cv.operator.0@) + "])"@)) + ", "@ + ("verdict"@ + ": "@ + said)
                + ", "@ + ("sealed"@ + ": "@ + "false"@) + " }"@
        }),
        cv.verdict is Go ==> remedy_note(cv.verdict).len() == 0,
        cv.verdict matches Verdict::NoGo(Remedy::Steer(s)) ==> remedy_note(cv.verdict) == s@,
        cv.verdict matches Verdict::NoGo(Remedy::HandEdit(h)) ==> remedy_note(cv.verdict) == h.0@,
{
}

} // verus!
