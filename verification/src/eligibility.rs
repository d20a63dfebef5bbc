//! Who may check a change.
use vstd::prelude::*;

use crate::ids::OperatorId;
use crate::policy::Independence;

verus! {

/// Does the list hold `op`?
pub fn holds_operator(v: &Vec<OperatorId>, op: OperatorId) -> (r: bool)
    ensures
        r == v@.contains(op),
{
    let mut i: usize = 0;
    while i < v.len()
        invariant
            0 <= i <= v.len(),
            forall|j: int| 0 <= j < i ==> v@[j] != op,
        decreases v.len() - i,
    {
        if v[i] == op {
            return true;
        }
        i = i + 1;
    }
    false
}

/// An owned copy of a list of operators.
pub fn copy_operators(v: &Vec<OperatorId>) -> (r: Vec<OperatorId>)
    ensures
        r@ == v@,
{
    let mut r: Vec<OperatorId> = Vec::new();
    let mut i: usize = 0;
    while i < v.len()
        invariant
            0 <= i <= v.len(),
            r@ == v@.take(i as int),
        decreases v.len() - i,
    {
        r.push(v[i]);
        i = i + 1;
    }
    r
}

/// The set of operators who made this change (prompt author, hand-editor(s)).
/// Used to enforce independence at cast time.
#[derive(PartialEq, Eq, Debug)]
pub struct MakerSet(Vec<OperatorId>);

impl View for MakerSet {
    type V = Set<OperatorId>;

    closed spec fn view(&self) -> Set<OperatorId> {
        self.0@.to_set()
    }
}

impl Clone for MakerSet {
    fn clone(&self) -> (r: Self)
        ensures
            r@ == self@,
    {
        MakerSet(copy_operators(&self.0))
    }
}

impl Default for MakerSet {
    fn default() -> (r: Self)
        ensures
            r@ == Set::<OperatorId>::empty(),
    {
        MakerSet::new()
    }
}

impl MakerSet {
    pub fn new() -> (r: Self)
        ensures
            r@ == Set::<OperatorId>::empty(),
    {
        MakerSet(Vec::new())
    }

    /// Builder-style add (deduplicates).
    pub fn with(self, op: OperatorId) -> (r: Self)
        ensures
            r@ == self@.insert(op),
    {
        let mut v = self.0;
        let ghost before = v@;
        if !holds_operator(&v, op) {
            v.push(op);
            assert forall|x: OperatorId| v@.contains(x) == (before.contains(x) || x == op) by {
                if before.contains(x) {
                    let i = choose|i: int| 0 <= i < before.len() && before[i] == x;
                    assert(v@[i] == x);
                }
                if x == op {
                    assert(v@[before.len() as int] == x);
                }
            }
        }
        MakerSet(v)
    }

    /// Builder-style add of every operator of another set.
    pub(crate) fn with_all(self, others: &MakerSet) -> (r: Self)
        ensures
            r@ == self@.union(others@),
    {
        let ghost before = self@;
        let mut r = self;
        let mut i: usize = 0;
        while i < others.0.len()
            invariant
                0 <= i <= others.0.len(),
                r@ == before.union(others.0@.take(i as int).to_set()),
            decreases others.0.len() - i,
        {
            let ghost so_far = others.0@.take(i as int);
            r = r.with(others.0[i]);
            proof {
                let next = others.0@.take(i as int + 1);
                assert(next =~= so_far.push(others.0@[i as int]));
                assert forall|x: OperatorId| next.contains(x) == (so_far.contains(x) || x
                    == others.0@[i as int]) by {
                    if so_far.contains(x) {
                        let k = choose|k: int| 0 <= k < so_far.len() && so_far[k] == x;
                        assert(next[k] == x);
                    }
                    if x == others.0@[i as int] {
                        assert(next[i as int] == x);
                    }
                }
                assert(r@ =~= before.union(next.to_set()));
            }
            i = i + 1;
        }
        assert(others.0@.take(i as int) =~= others.0@);
        r
    }

    pub fn contains(&self, op: &OperatorId) -> (r: bool)
        ensures
            r == self@.contains(*op),
    {
        holds_operator(&self.0, *op)
    }
}

/// Is `op` allowed to cast a counting verdict on a change made by `makers`?
///
/// - `Strict`: a maker may never check their own work.
/// - `Pragmatic`: a maker may cast; the *hold* still requires the co-signer to
///   be a distinct identity, so a lone maker can never satisfy a gate alone.
pub open spec fn eligible(
    independence: Independence,
    makers: Set<OperatorId>,
    op: OperatorId,
) -> bool {
    match independence {
        Independence::Strict => !makers.contains(op),
        Independence::Pragmatic => true,
    }
}

pub fn is_eligible(independence: Independence, makers: &MakerSet, op: OperatorId) -> (r: bool)
    ensures
        r == eligible(independence, makers@, op),
{
    match independence {
        Independence::Strict => !makers.contains(&op),
        Independence::Pragmatic => true,
    }
}

/// How many of `ops` are not in `makers`.
pub open spec fn count_outside(ops: Seq<OperatorId>, makers: Set<OperatorId>) -> nat {
    ops.filter(|op: OperatorId| !makers.contains(op)).len()
}

pub fn count_non_makers(ops: &[OperatorId], makers: &MakerSet) -> (r: usize)
    ensures
        r == count_outside(ops@, makers@),
{
    let ghost keep = |op: OperatorId| !makers@.contains(op);
    let mut n: usize = 0;
    let mut i: usize = 0;
    reveal(Seq::filter);
    while i < ops.len()
        invariant
            0 <= i <= ops.len(),
            n <= i,
            keep == (|op: OperatorId| !makers@.contains(op)),
            n == ops@.take(i as int).filter(keep).len(),
        decreases ops.len() - i,
    {
        reveal(Seq::filter);
        assert(ops@.take(i as int + 1).drop_last() =~= ops@.take(i as int));
        if !makers.contains(&ops[i]) {
            n = n + 1;
        }
        i = i + 1;
    }
    assert(ops@.take(ops@.len() as int) =~= ops@);
    n
}

/// Strict independence bars the makers and nobody else; pragmatic bars nobody.
pub proof fn strictness_bars_makers_alone(makers: Set<OperatorId>, op: OperatorId)
    ensures
        eligible(Independence::Strict, makers, op) <==> !makers.contains(op),
        eligible(Independence::Pragmatic, makers, op),
{
}

/// Everyone on a list who is no maker counts, once for each place they have on
/// it.
pub proof fn each_non_maker_counts(
    ops: Seq<OperatorId>,
    op: OperatorId,
    makers: Set<OperatorId>,
)
    ensures
        count_outside(Seq::empty(), makers) == 0,
        makers.contains(op) ==> count_outside(ops.push(op), makers) == count_outside(ops, makers),
        !makers.contains(op) ==> count_outside(ops.push(op), makers) == count_outside(ops, makers)
            + 1,
{
    reveal(Seq::filter);
    assert(ops.push(op).drop_last() =~= ops);
}

} // verus!
