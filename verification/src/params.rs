//! A single run of the block aligner, described by scores.
//!
//! Aligners that maximise a score take the reward of a match and the
//! penalties of a mismatch and of gaps as signed numbers. A cost model is
//! turned into such scores by negating its costs.

use vstd::prelude::*;
use crate::cost::CostModel;

verus! {

/// The scores of an alignment: a reward for a match and penalties for a
/// mismatch and for gaps.
#[derive(Clone, Copy, Debug, PartialEq, Eq, Structural)]
pub struct Costs {
    /// At least 0.
    pub match_cost: i32,
    /// Below 0.
    pub mismatch_cost: i32,
    /// At most 0.
    pub gap_open: i32,
    /// At most 0.
    pub gap_extend: i32,
}

impl Costs {
    /// Each score has the sign that it is documented to have.
    pub open spec fn wf(self) -> bool {
        &&& self.match_cost >= 0
        &&& self.mismatch_cost < 0
        &&& self.gap_open <= 0
        &&& self.gap_extend <= 0
    }

    /// Whether each score has the sign that it is documented to have.
    pub fn is_valid(&self) -> (r: bool)
        ensures
            r == self.wf(),
    {
        self.match_cost >= 0 && self.mismatch_cost < 0 && self.gap_open <= 0 && self.gap_extend
            <= 0
    }

    /// The scores that stand for a cost model: no reward for a match, and
    /// each cost as a penalty.
    pub open spec fn of(cm: CostModel) -> Costs {
        Costs {
            match_cost: 0,
            mismatch_cost: (-cm.sub) as i32,
            gap_open: (-cm.open) as i32,
            gap_extend: (-cm.extend) as i32,
        }
    }

    /// Turns a cost model into scores. There are none if the substitution
    /// cost is not positive or a gap cost is negative.
    pub fn from_cost_model(cm: CostModel) -> (r: Option<Costs>)
        ensures
            cm.sub > 0 && cm.open >= 0 && cm.extend >= 0 ==> r == Some(Self::of(cm)) && Self::of(
                cm,
            ).wf(),
            !(cm.sub > 0 && cm.open >= 0 && cm.extend >= 0) ==> r is None,
    {
        if cm.sub > 0 && cm.open >= 0 && cm.extend >= 0 {
            Some(
                Costs {
                    match_cost: 0,
                    mismatch_cost: -cm.sub,
                    gap_open: -cm.open,
                    gap_extend: -cm.extend,
                },
            )
        } else {
            None
        }
    }
}

/// The aligner of a run, with its settings.
#[derive(Clone, Copy, Debug, PartialEq, Eq, Structural)]
pub enum Algorithm {
    BlockAligner { costs: Costs, min_size: usize, max_size: usize },
}

impl Algorithm {
    /// The scores are well formed and the block sizes are in order.
    pub open spec fn wf(self) -> bool {
        match self {
            Algorithm::BlockAligner { costs, min_size, max_size } => costs.wf() && min_size
                <= max_size,
        }
    }

    /// Whether the settings can be run.
    pub fn is_valid(&self) -> (r: bool)
        ensures
            r == self.wf(),
    {
        match self {
            Algorithm::BlockAligner { costs, min_size, max_size } => costs.is_valid() && *min_size
                <= *max_size,
        }
    }
}

/// What a single run is asked to do.
#[derive(Debug)]
pub struct Parameters {
    pub algo: Algorithm,
    /// Path of the file of sequence pairs.
    pub dataset: String,
    /// Whether the alignment is asked for, and not the score alone.
    pub traceback: bool,
}

} // verus!
