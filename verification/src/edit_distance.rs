//! An exact aligner on top of the `triple_accel` crate.
//!
//! The crate computes the cost of the cheapest alignment that costs no
//! more than a given bound. The aligner here doubles the bound until an
//! alignment is found, and turns what comes back into a cost and a
//! [`Cigar`].

use vstd::prelude::*;
use crate::algorithms::{Refusal, TripleAccelParams};
use crate::cigar::{Cigar, CigarElem, CigarOp};
use crate::cost::{Cost, CostModel};
use crate::seqs::lemma_take_push;

verus! {

/// The kinds of edit that `triple_accel` reports.
#[derive(Clone, Copy, Debug, PartialEq, Eq, Structural)]
pub enum EditType {
    Match,
    Mismatch,
    /// A gap in the first sequence.
    AGap,
    /// A gap in the second sequence.
    BGap,
    /// Two neighbouring characters that changed places.
    Transpose,
}

/// A run of edits of one kind, as `triple_accel` reports it.
#[derive(Clone, Copy, Debug, PartialEq, Eq, Structural)]
pub struct Edit {
    pub edit: EditType,
    pub count: usize,
}

/// The longest sequence that is handed to `triple_accel`. Up to this
/// length its bounds on the cost fit 32 bits.
pub const MAX_LEN: usize = 0x40_0000;

/// The bound on the cost with which the search for an alignment starts.
pub const FIRST_BOUND: u32 = 30;

/// Why the aligner cannot be set up.
#[derive(Clone, Copy, Debug, PartialEq, Eq, Structural)]
pub enum BuildError {
    /// The aligner does not support the cost model with this output.
    Unsupported(Refusal),
    /// A cost is not a number that `triple_accel` takes: substitutions and
    /// gap positions cost from 1 to 255, and opening a gap from 0 to 255.
    CostOutOfRange,
}

/// Why two sequences were not aligned.
#[derive(Clone, Copy, Debug, PartialEq, Eq, Structural)]
pub enum AlignError {
    /// A sequence is longer than [`MAX_LEN`].
    TooLong,
    /// No alignment was found under any bound.
    NotFound,
    /// The cost does not fit the type of costs.
    CostOverflow,
    /// A run of edits is longer than a run of a cigar can be.
    RunOverflow,
    /// The alignment holds a transposition, which a cigar cannot express.
    Transposition,
}

/// The aligner: edit costs, and whether alignments are asked for.
#[derive(Clone, Copy, Debug)]
pub struct TripleAccel {
    mismatch_cost: u8,
    gap_cost: u8,
    start_gap_cost: u8,
    trace: bool,
}

/// The edit costs that `triple_accel` is given for the cost model `cm`, if it
/// takes them: the cost of a mismatch, of a gap position and of opening a
/// gap.
pub open spec fn edit_costs(cm: CostModel) -> Option<(u8, u8, u8)> {
    if 1 <= cm.sub <= 255 && 1 <= cm.extend <= 255 && 0 <= cm.open <= 255 {
        Some((cm.sub as u8, cm.extend as u8, cm.open as u8))
    } else {
        None
    }
}

impl TripleAccel {
    /// The costs are such that `triple_accel` takes them.
    #[verifier::type_invariant]
    spec fn wf(&self) -> bool {
        self.mismatch_cost > 0 && self.gap_cost > 0
    }

    /// The cost of a mismatch, of a gap position and of opening a gap.
    pub closed spec fn costs(&self) -> (u8, u8, u8) {
        (self.mismatch_cost, self.gap_cost, self.start_gap_cost)
    }

    /// Whether alignments are asked for, and not costs alone.
    pub closed spec fn trace(&self) -> bool {
        self.trace
    }
}

impl TripleAccelParams {
    /// Sets up the aligner for the cost model `cm`, to give alignments if
    /// `trace` holds. It gives no alignments under affine costs.
    pub fn build(&self, cm: CostModel, trace: bool, _max_len: usize) -> (r: Result<
        TripleAccel,
        BuildError,
    >)
        ensures
            cm.spec_is_affine() && trace ==> r == Err::<TripleAccel, BuildError>(
                BuildError::Unsupported(Refusal::TripleAccelAffineTrace),
            ),
            !(cm.spec_is_affine() && trace) ==> match edit_costs(cm) {
                Some(costs) => r matches Ok(aligner) && aligner.costs() == costs
                    && aligner.trace() == trace,
                None => r == Err::<TripleAccel, BuildError>(BuildError::CostOutOfRange),
            },
    {
        if cm.is_affine() && trace {
            return Err(BuildError::Unsupported(Refusal::TripleAccelAffineTrace));
        }
        if cm.sub < 1 || cm.sub > 255 || cm.extend < 1 || cm.extend > 255 || cm.open < 0 || cm.open
            > 255 {
            return Err(BuildError::CostOutOfRange);
        }
        Ok(
            TripleAccel {
                mismatch_cost: cm.sub as u8,
                gap_cost: cm.extend as u8,
                start_gap_cost: cm.open as u8,
                trace,
            },
        )
    }

    /// The aligner reports optimal costs.
    pub fn is_exact(&self) -> (r: bool)
        ensures
            r,
    {
        true
    }
}

/// The step of a cigar that an edit stands for. A gap in the first
/// sequence is an insertion and a gap in the second a deletion; a
/// transposition has no step.
pub open spec fn cigar_op(edit: EditType) -> Option<CigarOp> {
    match edit {
        EditType::Match => Some(CigarOp::Match),
        EditType::Mismatch => Some(CigarOp::Sub),
        EditType::AGap => Some(CigarOp::Ins),
        EditType::BGap => Some(CigarOp::Del),
        EditType::Transpose => None,
    }
}

/// The run of a cigar that a run of edits stands for, or why it has none.
pub open spec fn cigar_elem(edit: Edit) -> Result<CigarElem, AlignError> {
    match cigar_op(edit.edit) {
        None => Err(AlignError::Transposition),
        Some(op) => if edit.count > i32::MAX {
            Err(AlignError::RunOverflow)
        } else {
            Ok(CigarElem { op, cnt: edit.count as i32 })
        },
    }
}

/// The first `n` runs of edits all stand for runs of a cigar.
pub open spec fn all_convert(edits: Seq<Edit>, n: int) -> bool {
    forall|i: int| 0 <= i < n ==> (#[trigger] cigar_elem(edits[i])) is Ok
}

/// The runs of a cigar that the runs of `edits` stand for.
pub open spec fn cigar_elems(edits: Seq<Edit>) -> Seq<CigarElem> {
    edits.map_values(|e: Edit| cigar_elem(e)->Ok_0)
}

/// Turns runs of edits into a cigar. The first run that has no run of a
/// cigar decides the error.
pub fn cigar_of_edits(edits: &Vec<Edit>) -> (r: Result<Cigar, AlignError>)
    ensures
        match r {
            Ok(cigar) => all_convert(edits@, edits.len() as int) && cigar@ == cigar_elems(edits@),
            Err(e) => exists|i: int|
                0 <= i < edits.len() && all_convert(edits@, i) && cigar_elem(#[trigger] edits@[i])
                    == Err::<CigarElem, AlignError>(e),
        },
{
    let mut ops: Vec<CigarElem> = Vec::new();
    let mut i: usize = 0;
    while i < edits.len()
        invariant
            i <= edits.len(),
            all_convert(edits@, i as int),
            ops@ == cigar_elems(edits@.take(i as int)),
        decreases edits.len() - i,
    {
        let edit = edits[i];
        let op = match edit.edit {
            EditType::Match => CigarOp::Match,
            EditType::Mismatch => CigarOp::Sub,
            EditType::AGap => CigarOp::Ins,
            EditType::BGap => CigarOp::Del,
            EditType::Transpose => {
                return Err(AlignError::Transposition);
            },
        };
        if edit.count > i32::MAX as usize {
            return Err(AlignError::RunOverflow);
        }
        ops.push(CigarElem { op, cnt: edit.count as i32 });
        proof {
            lemma_take_push(edits@, i as int);
            assert(cigar_elems(edits@.take(i + 1)) =~= cigar_elems(edits@.take(i as int)).push(
                cigar_elem(edits@[i as int])->Ok_0,
            ));
        }
        i = i + 1;
    }
    assert(edits@.take(edits.len() as int) == edits@);
    Ok(Cigar { ops })
}

/// Turns what `triple_accel` found into the result of an alignment: the
/// cost, and the cigar if there are edits.
pub fn alignment_of(cost: u32, edits: Option<Vec<Edit>>) -> (r: Result<
    (Cost, Option<Cigar>),
    AlignError,
>)
    ensures
        cost > i32::MAX ==> r == Err::<(Cost, Option<Cigar>), AlignError>(AlignError::CostOverflow),
        cost <= i32::MAX ==> match edits {
            None => r matches Ok((c, None)) && c == cost,
            Some(edits) => match r {
                Ok((c, cigar)) => {
                    &&& c == cost
                    &&& all_convert(edits@, edits.len() as int)
                    &&& cigar is Some
                    &&& cigar->Some_0@ == cigar_elems(edits@)
                },
                Err(e) => exists|i: int|
                    0 <= i < edits.len() && all_convert(edits@, i) && cigar_elem(
                        #[trigger] edits@[i],
                    ) == Err::<CigarElem, AlignError>(e),
            },
        },
{
    if cost > i32::MAX as u32 {
        return Err(AlignError::CostOverflow);
    }
    match edits {
        None => Ok((cost as i32, None)),
        Some(edits) => match cigar_of_edits(&edits) {
            Ok(cigar) => Ok((cost as i32, Some(cigar))),
            Err(e) => Err(e),
        },
    }
}

/// The cost that `triple_accel::levenshtein::levenshtein_simd_k_with_opts`
/// finds for the sequences `a` and `b` under the bound `k` on the cost,
/// asked for the edits or not, with the costs of a mismatch, of a gap
/// position and of opening a gap; nothing where it finds no alignment.
pub uninterp spec fn levenshtein_cost(
    a: Seq<u8>,
    b: Seq<u8>,
    k: u32,
    trace_on: bool,
    mismatch_cost: u8,
    gap_cost: u8,
    start_gap_cost: u8,
) -> Option<u32>;

/// The cost in what a search found.
pub open spec fn cost_in(found: Option<(u32, Option<Vec<Edit>>)>) -> Option<u32> {
    match found {
        Some((cost, _)) => Some(cost),
        None => None,
    }
}

/// Calls `triple_accel::levenshtein::levenshtein_simd_k_with_opts` with edit
/// costs made by `EditCosts::new`, without a cost for transpositions.
///
/// The crate documents that the call returns nothing if the cheapest
/// alignment of `a` and `b` costs more than `k`, and else its cost with
/// the runs of edits if `trace_on` holds. The cost that comes back, or
/// that none does, is given the name [`levenshtein_cost`] here and not
/// said again. Of the edits it is claimed that they come back exactly if
/// they were asked for; which edits they are is left open, since the
/// crate takes one of several ways to compute them by what the processor
/// offers. The costs must be positive because `EditCosts::new` panics
/// otherwise, and the lengths are bounded so that the crate's bounds on
/// the cost do not overflow.
#[verifier::external_body]
fn levenshtein_within(
    a: &[u8],
    b: &[u8],
    k: u32,
    trace_on: bool,
    mismatch_cost: u8,
    gap_cost: u8,
    start_gap_cost: u8,
) -> (r: Option<(u32, Option<Vec<Edit>>)>)
    requires
        mismatch_cost > 0,
        gap_cost > 0,
        a.len() <= MAX_LEN,
        b.len() <= MAX_LEN,
    ensures
        r matches Some((_, edits)) ==> (edits is Some <==> trace_on),
        cost_in(r) == levenshtein_cost(
            a@,
            b@,
            k,
            trace_on,
            mismatch_cost,
            gap_cost,
            start_gap_cost,
        ),
{
    let costs = ::triple_accel::levenshtein::EditCosts::new(mismatch_cost, gap_cost, start_gap_cost, None);
    let (cost, edits) = ::triple_accel::levenshtein::levenshtein_simd_k_with_opts(a, b, k, trace_on, costs)?;
    let edits = edits.map(|edits| edits.into_iter().map(|e| Edit {
        edit: match e.edit {
            ::triple_accel::EditType::Match => EditType::Match,
            ::triple_accel::EditType::Mismatch => EditType::Mismatch,
            ::triple_accel::EditType::AGap => EditType::AGap,
            ::triple_accel::EditType::BGap => EditType::BGap,
            ::triple_accel::EditType::Transpose => EditType::Transpose,
        },
        count: e.count,
    }).collect());
    Some((cost, edits))
}

/// The bound on the cost that is tried after `k`: twice `k`, and the
/// largest bound where that is too large.
pub open spec fn next_bound(k: u32) -> u32 {
    if k > u32::MAX / 2 {
        u32::MAX
    } else {
        (2 * k) as u32
    }
}

/// The cost that a search finds for `a` and `b` when it tries the bound
/// `k` on the cost and then each bound after it: the cost that is found
/// under the first bound under which one is found, and nothing if none is
/// found under the largest bound. `costs` are the costs of a mismatch, of
/// a gap position and of opening a gap.
pub open spec fn found_cost(
    a: Seq<u8>,
    b: Seq<u8>,
    trace_on: bool,
    costs: (u8, u8, u8),
    k: u32,
) -> Option<u32>
    decreases u32::MAX - k,
{
    match levenshtein_cost(a, b, k, trace_on, costs.0, costs.1, costs.2) {
        Some(cost) => Some(cost),
        None => if 0 < k < u32::MAX {
            found_cost(a, b, trace_on, costs, next_bound(k))
        } else {
            None
        },
    }
}

/// What aligning gives for the cost `found` that a search found, as far
/// as the cost decides it. Without a cost no alignment was found, and a
/// cost that is too large a number is an error. Any other cost is the
/// cost that is given; where the edits are asked for too they may stand
/// in the way, since not all edits have a run of a cigar.
pub open spec fn aligned(
    found: Option<u32>,
    trace_on: bool,
    r: Result<(Cost, Option<Cigar>), AlignError>,
) -> bool {
    match found {
        None => r == Err::<(Cost, Option<Cigar>), AlignError>(AlignError::NotFound),
        Some(cost) => if cost > i32::MAX {
            r == Err::<(Cost, Option<Cigar>), AlignError>(AlignError::CostOverflow)
        } else {
            match r {
                Ok((given, cigar)) => given == cost && (cigar is Some <==> trace_on),
                Err(e) => trace_on && (e == AlignError::Transposition || e
                    == AlignError::RunOverflow),
            }
        },
    }
}

impl TripleAccel {
    /// Looks for the cheapest alignment of `a` and `b` under bounds on its
    /// cost that start at [`FIRST_BOUND`] and double until an alignment is
    /// found or the largest bound was tried.
    fn search(&self, a: &[u8], b: &[u8]) -> (r: Option<(u32, Option<Vec<Edit>>)>)
        requires
            a.len() <= MAX_LEN,
            b.len() <= MAX_LEN,
        ensures
            r matches Some((_, edits)) ==> (edits is Some <==> self.trace()),
            cost_in(r) == found_cost(a@, b@, self.trace(), self.costs(), FIRST_BOUND),
    {
        let mut k: u32 = FIRST_BOUND;
        proof {
            use_type_invariant(self);
        }
        loop
            invariant
                self.mismatch_cost > 0,
                self.gap_cost > 0,
                a.len() <= MAX_LEN,
                b.len() <= MAX_LEN,
                k >= FIRST_BOUND,
                found_cost(a@, b@, self.trace(), self.costs(), k) == found_cost(
                    a@,
                    b@,
                    self.trace(),
                    self.costs(),
                    FIRST_BOUND,
                ),
            decreases u32::MAX - k,
        {
            let found = levenshtein_within(
                a,
                b,
                k,
                self.trace,
                self.mismatch_cost,
                self.gap_cost,
                self.start_gap_cost,
            );
            if found.is_some() || k == u32::MAX {
                return found;
            }
            k = if k > u32::MAX / 2 {
                u32::MAX
            } else {
                2 * k
            };
        }
    }

    /// Aligns `a` and `b`: gives the cost of the cheapest alignment, and
    /// the alignment itself if the aligner was set up to give it.
    ///
    /// Sequences longer than [`MAX_LEN`] are not aligned. For other
    /// sequences the cost is the one that `triple_accel` finds under the
    /// first bound under which it finds one. A cost that is given is not
    /// negative, and a cigar is given exactly if the aligner was set up to
    /// give it.
    pub fn align(&mut self, a: &[u8], b: &[u8]) -> (r: Result<(Cost, Option<Cigar>), AlignError>)
        ensures
            *final(self) == *old(self),
            a.len() > MAX_LEN || b.len() > MAX_LEN ==> r == Err::<
                (Cost, Option<Cigar>),
                AlignError,
            >(AlignError::TooLong),
            a.len() <= MAX_LEN && b.len() <= MAX_LEN ==> aligned(
                found_cost(a@, b@, old(self).trace(), old(self).costs(), FIRST_BOUND),
                old(self).trace(),
                r,
            ),
            r matches Ok((cost, cigar)) ==> cost >= 0 && (cigar is Some <==> old(self).trace()),
            r matches Err(e) ==> (e == AlignError::TooLong <==> a.len() > MAX_LEN || b.len()
                > MAX_LEN),
    {
        if a.len() > MAX_LEN || b.len() > MAX_LEN {
            return Err(AlignError::TooLong);
        }
        match self.search(a, b) {
            None => Err(AlignError::NotFound),
            Some((cost, edits)) => alignment_of(cost, edits),
        }
    }
}

} // verus!
