//! What the alignment of a sequence pair says of the pair: how many steps
//! of each kind it takes, and how large its largest gap is.
//!
//! A gap is a stretch of the alignment in which insertions, or deletions,
//! outweigh the other steps. So that a few matches inside a long insertion
//! do not split it, the size of a gap is the number of insertions in a
//! stretch minus the number of other steps in it, and the largest gap is
//! the largest such number over all stretches.

use vstd::prelude::*;
use crate::cigar::{CigarElem, CigarOp};

verus! {

/// What a run adds to the surplus of steps of kind `kind`: its length if
/// it is of that kind, and minus its length if not.
pub open spec fn weight(run: CigarElem, kind: CigarOp) -> int {
    if run.op == kind {
        run.cnt as int
    } else {
        -(run.cnt as int)
    }
}

/// The number of steps of kind `kind` minus the number of other steps in
/// the runs from `i` up to `j`.
pub open spec fn surplus(ops: Seq<CigarElem>, kind: CigarOp, i: int, j: int) -> int
    decreases j - i,
{
    if j <= i {
        0
    } else {
        surplus(ops, kind, i, j - 1) + weight(ops[j - 1], kind)
    }
}

/// `best` is the largest surplus of steps of kind `kind` over all
/// stretches of the first `n` runs: no stretch has more, and one has as
/// much.
pub open spec fn is_largest_surplus(ops: Seq<CigarElem>, kind: CigarOp, n: int, best: int) -> bool {
    &&& forall|i: int, j: int| 0 <= i <= j <= n ==> #[trigger] surplus(ops, kind, i, j) <= best
    &&& exists|i: int, j: int| 0 <= i <= j <= n && #[trigger] surplus(ops, kind, i, j) == best
}

/// `best` is the largest surplus of steps of kind `kind` over all
/// stretches that end behind the first `n` runs.
pub open spec fn is_largest_ending(ops: Seq<CigarElem>, kind: CigarOp, n: int, best: int) -> bool {
    &&& forall|i: int| 0 <= i <= n ==> #[trigger] surplus(ops, kind, i, n) <= best
    &&& exists|i: int| 0 <= i <= n && #[trigger] surplus(ops, kind, i, n) == best
}

/// Every run has a length that is not negative.
pub open spec fn counts_ok(ops: Seq<CigarElem>) -> bool {
    forall|k: int| 0 <= k < ops.len() ==> (#[trigger] ops[k]).cnt >= 0
}

/// There is one largest surplus only.
pub proof fn lemma_largest_surplus_unique(
    ops: Seq<CigarElem>,
    kind: CigarOp,
    n: int,
    a: int,
    b: int,
)
    requires
        is_largest_surplus(ops, kind, n, a),
        is_largest_surplus(ops, kind, n, b),
    ensures
        a == b,
{
}

/// The largest surplus of steps of kind `kind` over all stretches of
/// `ops`. There is none if a run has a negative length.
pub fn largest_surplus(ops: &Vec<CigarElem>, kind: CigarOp) -> (r: Option<u128>)
    ensures
        r is Some <==> counts_ok(ops@),
        r matches Some(best) ==> is_largest_surplus(ops@, kind, ops.len() as int, best as int),
{
    // The largest surplus of a stretch that ends here, and of any stretch.
    let mut ending: u128 = 0;
    let mut best: u128 = 0;
    let mut k: usize = 0;
    assert(surplus(ops@, kind, 0, 0) == 0);
    while k < ops.len()
        invariant
            k <= ops.len(),
            forall|i: int| 0 <= i < k ==> (#[trigger] ops@[i]).cnt >= 0,
            ending <= best <= k * 0x8000_0000,
            is_largest_ending(ops@, kind, k as int, ending as int),
            is_largest_surplus(ops@, kind, k as int, best as int),
        decreases ops.len() - k,
    {
        let run = ops[k];
        if run.cnt < 0 {
            return None;
        }
        let cnt = run.cnt as u128;
        let same = match (run.op, kind) {
            (CigarOp::Match, CigarOp::Match) => true,
            (CigarOp::Sub, CigarOp::Sub) => true,
            (CigarOp::Del, CigarOp::Del) => true,
            (CigarOp::Ins, CigarOp::Ins) => true,
            _ => false,
        };
        let ghost old_ending = ending as int;
        let ghost old_best = best as int;
        assert(k * 0x8000_0000 + 0x8000_0000 == (k + 1) * 0x8000_0000) by (nonlinear_arith);
        assert(k * 0x8000_0000 <= usize::MAX * 0x8000_0000) by (nonlinear_arith)
            requires
                k <= usize::MAX,
        ;
        if same {
            ending = ending + cnt;
            if ending > best {
                best = ending;
            }
        } else {
            ending = if ending >= cnt {
                (ending - cnt) as u128
            } else {
                0
            };
        }
        proof {
            let w = weight(run, kind);
            let n = k as int;
            assert(surplus(ops@, kind, n + 1, n + 1) == 0);
            assert forall|i: int| 0 <= i <= n implies #[trigger] surplus(ops@, kind, i, n + 1)
                == surplus(ops@, kind, i, n) + w by {}
            // Stretches that end behind this run.
            assert forall|i: int| 0 <= i <= n + 1 implies #[trigger] surplus(ops@, kind, i, n + 1)
                <= ending by {
                if i <= n {
                    assert(surplus(ops@, kind, i, n) <= old_ending);
                }
            }
            let at = choose|i: int| 0 <= i <= n && #[trigger] surplus(ops@, kind, i, n) == old_ending;
            if old_ending + w >= 0 {
                assert(surplus(ops@, kind, at, n + 1) == ending);
            } else {
                assert(surplus(ops@, kind, n + 1, n + 1) == ending);
            }
            assert(is_largest_ending(ops@, kind, n + 1, ending as int));
            // All stretches.
            assert forall|i: int, j: int| 0 <= i <= j <= n + 1 implies #[trigger] surplus(
                ops@,
                kind,
                i,
                j,
            ) <= best by {
                if j <= n {
                    assert(surplus(ops@, kind, i, j) <= old_best);
                } else {
                    assert(surplus(ops@, kind, i, n + 1) <= ending);
                }
            }
            if best as int == old_best {
                let (i, j) = choose|i: int, j: int|
                    0 <= i <= j <= n && #[trigger] surplus(ops@, kind, i, j) == old_best;
                assert(0 <= i <= j <= n + 1 && surplus(ops@, kind, i, j) == best);
            } else {
                assert(best == ending);
                let i = choose|i: int|
                    0 <= i <= n + 1 && #[trigger] surplus(ops@, kind, i, n + 1) == ending as int;
                assert(0 <= i <= n + 1 <= n + 1 && surplus(ops@, kind, i, n + 1) == best);
            }
            assert(is_largest_surplus(ops@, kind, n + 1, best as int));
        }
        k = k + 1;
    }
    Some(best)
}

/// How many steps of each kind an alignment takes, and its largest gap.
#[derive(Clone, Copy, Debug, PartialEq, Eq, Structural)]
pub struct Steps {
    pub matches: u128,
    pub substitutions: u128,
    pub insertions: u128,
    pub deletions: u128,
    /// The larger of the largest surplus of insertions and the largest
    /// surplus of deletions over all stretches of the alignment.
    pub largest_gap: u128,
}

/// The number of steps of kind `kind` in the first `n` runs.
pub open spec fn steps_of(ops: Seq<CigarElem>, kind: CigarOp, n: nat) -> int
    decreases n,
{
    if n == 0 {
        0
    } else {
        steps_of(ops, kind, (n - 1) as nat) + if ops[n - 1].op == kind {
            ops[n - 1].cnt as int
        } else {
            0
        }
    }
}

/// Counts the steps of kind `kind`.
fn count_steps(ops: &Vec<CigarElem>, kind: CigarOp) -> (r: u128)
    requires
        counts_ok(ops@),
    ensures
        r == steps_of(ops@, kind, ops.len() as nat),
{
    let mut total: u128 = 0;
    let mut k: usize = 0;
    while k < ops.len()
        invariant
            k <= ops.len(),
            counts_ok(ops@),
            total == steps_of(ops@, kind, k as nat),
            total <= k * 0x8000_0000,
        decreases ops.len() - k,
    {
        let run = ops[k];
        let same = match (run.op, kind) {
            (CigarOp::Match, CigarOp::Match) => true,
            (CigarOp::Sub, CigarOp::Sub) => true,
            (CigarOp::Del, CigarOp::Del) => true,
            (CigarOp::Ins, CigarOp::Ins) => true,
            _ => false,
        };
        assert(k * 0x8000_0000 + 0x8000_0000 == (k + 1) * 0x8000_0000) by (nonlinear_arith);
        assert(k * 0x8000_0000 <= usize::MAX * 0x8000_0000) by (nonlinear_arith)
            requires
                k <= usize::MAX,
        ;
        if same {
            total = total + run.cnt as u128;
        }
        k = k + 1;
    }
    total
}

/// Counts the steps of an alignment and measures its largest gap. There
/// is no answer if a run has a negative length.
pub fn measure_steps(ops: &Vec<CigarElem>) -> (r: Option<Steps>)
    ensures
        r is Some <==> counts_ok(ops@),
        r matches Some(steps) ==> {
            let n = ops.len() as nat;
            &&& steps.matches == steps_of(ops@, CigarOp::Match, n)
            &&& steps.substitutions == steps_of(ops@, CigarOp::Sub, n)
            &&& steps.insertions == steps_of(ops@, CigarOp::Ins, n)
            &&& steps.deletions == steps_of(ops@, CigarOp::Del, n)
            &&& is_largest_surplus(ops@, CigarOp::Ins, n as int, steps.largest_gap as int)
                || is_largest_surplus(ops@, CigarOp::Del, n as int, steps.largest_gap as int)
            &&& forall|i: int, j: int|
                0 <= i <= j <= n ==> #[trigger] surplus(ops@, CigarOp::Ins, i, j)
                    <= steps.largest_gap
            &&& forall|i: int, j: int|
                0 <= i <= j <= n ==> #[trigger] surplus(ops@, CigarOp::Del, i, j)
                    <= steps.largest_gap
        },
{
    let by_insertions = match largest_surplus(ops, CigarOp::Ins) {
        Some(gap) => gap,
        None => {
            return None;
        },
    };
    let by_deletions = match largest_surplus(ops, CigarOp::Del) {
        Some(gap) => gap,
        None => {
            return None;
        },
    };
    Some(
        Steps {
            matches: count_steps(ops, CigarOp::Match),
            substitutions: count_steps(ops, CigarOp::Sub),
            insertions: count_steps(ops, CigarOp::Ins),
            deletions: count_steps(ops, CigarOp::Del),
            largest_gap: if by_insertions >= by_deletions {
                by_insertions
            } else {
                by_deletions
            },
        },
    )
}

} // verus!
