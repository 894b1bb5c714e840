//! What stands around the calls of aligners that are libraries of their
//! own: the tables that they are given and the alignments that they give
//! back, in the shapes that those libraries use.

use vstd::prelude::*;
use crate::cigar::{CigarElem, CigarOp};
use crate::cost::{Cost, CostModel};

verus! {

/// The number of letters that `ksw2` tells apart: four bases and one for
/// everything else.
pub const KSW2_LETTERS: usize = 5;

/// The number that `ksw2` is given for a base: 0 to 3 for `A`, `C`, `G`
/// and `T`, and 0 for anything else.
pub open spec fn ksw2_code(base: u8) -> u8 {
    if base == 67 {
        1
    } else if base == 71 {
        2
    } else if base == 84 {
        3
    } else {
        0
    }
}

/// The score of letter `i` against letter `j` that `ksw2` is given for a
/// substitution cost: the cost as a penalty between two different bases,
/// and 0 between equal bases and for the letter that is no base.
pub open spec fn ksw2_score(sub: Cost, i: int, j: int) -> int {
    if i < KSW2_LETTERS - 1 && j < KSW2_LETTERS - 1 && i != j {
        -sub
    } else {
        0
    }
}

/// The scores that `ksw2` is given, row by row. There are none if the
/// penalty for a substitution does not fit a byte.
pub fn ksw2_score_matrix(sub: Cost) -> (r: Option<Vec<i8>>)
    ensures
        r is Some <==> -128 <= -sub <= 127,
        r matches Some(m) ==> m.len() == KSW2_LETTERS * KSW2_LETTERS && forall|i: int, j: int|
            0 <= i < KSW2_LETTERS && 0 <= j < KSW2_LETTERS ==> #[trigger] m[KSW2_LETTERS * i + j]
                == ksw2_score(sub, i, j),
{
    if sub < -127 || sub > 128 {
        return None;
    }
    let penalty: i8 = (-sub) as i8;
    let mut m: Vec<i8> = Vec::new();
    let mut i: usize = 0;
    while i < KSW2_LETTERS
        invariant
            i <= KSW2_LETTERS,
            penalty == -sub,
            m.len() == KSW2_LETTERS * i,
            forall|a: int, b: int|
                0 <= a < i && 0 <= b < KSW2_LETTERS ==> #[trigger] m[KSW2_LETTERS * a + b]
                    == ksw2_score(sub, a, b),
        decreases KSW2_LETTERS - i,
    {
        let mut j: usize = 0;
        while j < KSW2_LETTERS
            invariant
                i < KSW2_LETTERS,
                j <= KSW2_LETTERS,
                penalty == -sub,
                m.len() == KSW2_LETTERS * i + j,
                forall|a: int, b: int|
                    0 <= a < i && 0 <= b < KSW2_LETTERS ==> #[trigger] m[KSW2_LETTERS * a + b]
                        == ksw2_score(sub, a, b),
                forall|b: int|
                    0 <= b < j ==> #[trigger] m[KSW2_LETTERS * i + b] == ksw2_score(
                        sub,
                        i as int,
                        b,
                    ),
            decreases KSW2_LETTERS - j,
        {
            let score: i8 = if i < KSW2_LETTERS - 1 && j < KSW2_LETTERS - 1 && i != j {
                penalty
            } else {
                0
            };
            m.push(score);
            j = j + 1;
        }
        i = i + 1;
    }
    Some(m)
}

/// Turns a sequence into the numbers that `ksw2` is given for its bases.
pub fn ksw2_encode(seq: &[u8]) -> (r: Vec<u8>)
    ensures
        r@ == seq@.map_values(|base: u8| ksw2_code(base)),
{
    let mut r: Vec<u8> = Vec::new();
    let mut i: usize = 0;
    while i < seq.len()
        invariant
            i <= seq.len(),
            r@ == seq@.take(i as int).map_values(|base: u8| ksw2_code(base)),
        decreases seq.len() - i,
    {
        let base = seq[i];
        let code: u8 = if base == 67 {
            1
        } else if base == 71 {
            2
        } else if base == 84 {
            3
        } else {
            0
        };
        r.push(code);
        assert(seq@.take(i + 1).map_values(|base: u8| ksw2_code(base)) =~= seq@.take(
            i as int,
        ).map_values(|base: u8| ksw2_code(base)).push(ksw2_code(base)));
        i = i + 1;
    }
    assert(seq@.take(seq.len() as int) == seq@);
    r
}

/// The gap costs that `ksw2` is given, if they fit a byte.
pub fn ksw2_gaps(cm: CostModel) -> (r: Option<(i8, i8)>)
    ensures
        r is Some <==> -128 <= cm.open <= 127 && -128 <= cm.extend <= 127,
        r matches Some((open, extend)) ==> open == cm.open && extend == cm.extend,
{
    if cm.open < -128 || cm.open > 127 || cm.extend < -128 || cm.extend > 127 {
        None
    } else {
        Some((cm.open as i8, cm.extend as i8))
    }
}

/// The kind of step that a run of `ksw2` stands for. The run holds it in
/// its low four bits: 0 and 7 are matches, 1 is a deletion, 2 an insertion
/// and 8 a substitution.
pub open spec fn ksw2_op(run: u32) -> Option<CigarOp> {
    let kind = run & 15;
    if kind == 0 || kind == 7 {
        Some(CigarOp::Match)
    } else if kind == 1 {
        Some(CigarOp::Del)
    } else if kind == 2 {
        Some(CigarOp::Ins)
    } else if kind == 8 {
        Some(CigarOp::Sub)
    } else {
        None
    }
}

/// The run of a cigar that a run of `ksw2` stands for. Its length is what
/// is left of the run above the low four bits.
pub open spec fn ksw2_run(run: u32) -> Option<CigarElem> {
    match ksw2_op(run) {
        Some(op) => Some(CigarElem { op, cnt: (run / 16) as i32 }),
        None => None,
    }
}

/// Turns the runs that `ksw2` gives back into runs of a cigar. The error
/// is the position of the first run whose kind is not known.
pub fn ksw2_decode(runs: &[u32]) -> (r: Result<Vec<CigarElem>, usize>)
    ensures
        match r {
            Ok(cigar) => cigar.len() == runs.len() && forall|i: int|
                0 <= i < runs.len() ==> ksw2_run(#[trigger] runs[i]) == Some(cigar[i]),
            Err(at) => at < runs.len() && ksw2_run(runs[at as int]) is None && forall|i: int|
                0 <= i < at ==> ksw2_run(#[trigger] runs[i]) is Some,
        },
{
    let mut cigar: Vec<CigarElem> = Vec::new();
    let mut i: usize = 0;
    while i < runs.len()
        invariant
            i <= runs.len(),
            cigar.len() == i,
            forall|k: int| 0 <= k < i ==> ksw2_run(#[trigger] runs[k]) == Some(cigar[k]),
        decreases runs.len() - i,
    {
        let run = runs[i];
        let kind = run & 15;
        let op = if kind == 0 || kind == 7 {
            CigarOp::Match
        } else if kind == 1 {
            CigarOp::Del
        } else if kind == 2 {
            CigarOp::Ins
        } else if kind == 8 {
            CigarOp::Sub
        } else {
            return Err(i);
        };
        cigar.push(CigarElem { op, cnt: (run / 16) as i32 });
        i = i + 1;
    }
    Ok(cigar)
}

/// The kind of step that a number of `edlib` stands for.
pub open spec fn edlib_step(code: u8) -> Option<CigarOp> {
    if code == 0 {
        Some(CigarOp::Match)
    } else if code == 1 {
        Some(CigarOp::Del)
    } else if code == 2 {
        Some(CigarOp::Ins)
    } else if code == 3 {
        Some(CigarOp::Sub)
    } else {
        None
    }
}

/// The kind of step that a number of `edlib` stands for: 0 is a match, 1
/// a deletion, 2 an insertion and 3 a substitution.
pub fn edlib_op(code: u8) -> (r: Option<CigarOp>)
    ensures
        r == edlib_step(code),
{
    if code == 0 {
        Some(CigarOp::Match)
    } else if code == 1 {
        Some(CigarOp::Del)
    } else if code == 2 {
        Some(CigarOp::Ins)
    } else if code == 3 {
        Some(CigarOp::Sub)
    } else {
        None
    }
}

/// The penalties with which the wavefront aligner is set up.
#[derive(Clone, Copy, Debug, PartialEq, Eq, Structural)]
pub enum WfaPenalties {
    /// Edit distance.
    Edit,
    /// A cost for substitutions and one for each position of a gap.
    Linear { sub: Cost, extend: Cost },
    /// A cost for substitutions, for opening a gap and for each position
    /// of it.
    Affine { sub: Cost, open: Cost, extend: Cost },
}

/// The penalties of the wavefront aligner for a cost model: those of the
/// edit distance for unit costs, linear ones without a cost for opening a
/// gap and affine ones with it. There are none for a negative cost for
/// opening a gap.
pub open spec fn wfa_penalties_of(cm: CostModel) -> Option<WfaPenalties> {
    if cm.spec_is_unit() {
        Some(WfaPenalties::Edit)
    } else if cm.spec_is_linear() {
        Some(WfaPenalties::Linear { sub: cm.sub, extend: cm.extend })
    } else if cm.spec_is_affine() {
        Some(WfaPenalties::Affine { sub: cm.sub, open: cm.open, extend: cm.extend })
    } else {
        None
    }
}

/// The penalties of the wavefront aligner for a cost model.
pub fn wfa_penalties(cm: CostModel) -> (r: Option<WfaPenalties>)
    ensures
        r == wfa_penalties_of(cm),
        r is None <==> cm.open < 0,
{
    if cm.is_unit() {
        Some(WfaPenalties::Edit)
    } else if cm.is_linear() {
        Some(WfaPenalties::Linear { sub: cm.sub, extend: cm.extend })
    } else if cm.is_affine() {
        Some(WfaPenalties::Affine { sub: cm.sub, open: cm.open, extend: cm.extend })
    } else {
        None
    }
}

/// The cost that the score of the wavefront aligner stands for: the score
/// itself for the edit distance, and else the score negated. There is
/// none if negating leaves the numbers that a cost can be.
pub fn wfa_cost(penalties: WfaPenalties, score: i32) -> (r: Option<Cost>)
    ensures
        penalties is Edit ==> r == Some(score),
        !(penalties is Edit) ==> (r is Some <==> score > i32::MIN) && (r matches Some(cost)
            ==> cost == -score),
{
    match penalties {
        WfaPenalties::Edit => Some(score),
        _ => if score == i32::MIN {
            None
        } else {
            Some(-score)
        },
    }
}

} // verus!
