//! Jobs and the relations between them.
//!
//! There is no single notion of two jobs being equal. Stored results are
//! found again by identity, which ignores the resources a job was given;
//! costs are compared between jobs with the same input; and a failure is
//! carried over from one job to another that is at least as hard and has
//! no more resources.

use vstd::prelude::*;
use crate::algorithms::{AlgorithmParams, AlgorithmParamsView};
use crate::cost::CostModel;
use crate::dataset::{Dataset, DatasetView};

verus! {

/// A duration in seconds.
pub type Seconds = u64;

/// A size in bytes.
pub type Bytes = u64;

/// One unit of work: an aligner run on a dataset under a cost model, within
/// limits on time and memory.
#[derive(Debug)]
pub struct Job {
    /// The processor time the job may use.
    pub time_limit: Seconds,
    /// The memory the job may use.
    pub mem_limit: Bytes,
    pub dataset: Dataset,
    pub costs: CostModel,
    /// Whether the alignment is asked for, and not the cost alone.
    pub traceback: bool,
    pub algo: AlgorithmParams,
}

/// The mathematical value of a [`Job`].
pub struct JobView {
    pub time_limit: Seconds,
    pub mem_limit: Bytes,
    pub dataset: DatasetView,
    pub costs: CostModel,
    pub traceback: bool,
    pub algo: AlgorithmParamsView,
}

impl View for Job {
    type V = JobView;

    open spec fn view(&self) -> JobView {
        JobView {
            time_limit: self.time_limit,
            mem_limit: self.mem_limit,
            dataset: self.dataset@,
            costs: self.costs,
            traceback: self.traceback,
            algo: self.algo@,
        }
    }
}

impl Clone for Job {
    fn clone(&self) -> (r: Job)
        ensures
            r@ == self@,
    {
        Job {
            time_limit: self.time_limit,
            mem_limit: self.mem_limit,
            dataset: self.dataset.clone(),
            costs: self.costs,
            traceback: self.traceback,
            algo: self.algo.clone(),
        }
    }
}

impl JobView {
    /// The two jobs are the same but for their resources.
    pub open spec fn is_same_as(self, o: JobView) -> bool {
        &&& self.dataset == o.dataset
        &&& self.costs == o.costs
        &&& self.traceback == o.traceback
        &&& self.algo == o.algo
    }

    /// `self` has at least the time and at least the memory of `o`.
    pub open spec fn has_more_resources_than(self, o: JobView) -> bool {
        self.time_limit >= o.time_limit && self.mem_limit >= o.mem_limit
    }

    /// The two jobs align the same dataset under the same cost model.
    pub open spec fn same_input(self, o: JobView) -> bool {
        self.dataset == o.dataset && self.costs == o.costs
    }

    /// `self` is at least as hard as `o` and has no more resources: both
    /// datasets are generated and that of `self` is at least as hard, the
    /// cost model, aligner and output are the same, and `self` has at most
    /// the time and at most the memory of `o`.
    pub open spec fn is_larger(self, o: JobView) -> bool {
        &&& self.dataset matches DatasetView::Generated(mine)
        &&& o.dataset matches DatasetView::Generated(theirs)
        &&& self.costs == o.costs
        &&& self.algo == o.algo
        &&& self.traceback == o.traceback
        &&& self.time_limit <= o.time_limit
        &&& self.mem_limit <= o.mem_limit
        &&& mine.is_larger_than(theirs)
    }
}

impl Job {
    /// Whether the two jobs are the same but for their resources.
    pub fn is_same_as(&self, o: &Job) -> (r: bool)
        ensures
            r == self@.is_same_as(o@),
    {
        self.dataset.eq(&o.dataset) && self.costs == o.costs && self.traceback == o.traceback
            && self.algo.eq(&o.algo)
    }

    /// Whether `self` has at least the time and at least the memory of `o`.
    pub fn has_more_resources_than(&self, o: &Job) -> (r: bool)
        ensures
            r == self@.has_more_resources_than(o@),
    {
        self.time_limit >= o.time_limit && self.mem_limit >= o.mem_limit
    }

    /// Whether the two jobs align the same dataset under the same cost model.
    pub fn same_input(&self, o: &Job) -> (r: bool)
        ensures
            r == self@.same_input(o@),
    {
        self.dataset.eq(&o.dataset) && self.costs == o.costs
    }

    /// Whether `self` is at least as hard as `o` and has no more resources.
    /// It is not when either dataset is not generated.
    pub fn is_larger(&self, o: &Job) -> (r: bool)
        ensures
            r == self@.is_larger(o@),
    {
        match (&self.dataset, &o.dataset) {
            (Dataset::Generated(mine), Dataset::Generated(theirs)) => {
                self.costs == o.costs && self.algo.eq(&o.algo) && self.traceback == o.traceback
                    && self.time_limit <= o.time_limit && self.mem_limit <= o.mem_limit
                    && mine.is_larger_than(theirs)
            },
            _ => false,
        }
    }
}

/// Identity is an equivalence on jobs, and every job has at least its own
/// resources.
pub proof fn lemma_identity_is_equivalence(a: JobView, b: JobView, c: JobView)
    ensures
        a.is_same_as(a),
        a.is_same_as(b) ==> b.is_same_as(a),
        a.is_same_as(b) && b.is_same_as(c) ==> a.is_same_as(c),
        a.is_same_as(b) ==> a.same_input(b),
        a.has_more_resources_than(a),
{
}

/// Jobs that differ in cost model, aligner or output are never ordered by
/// hardness, whatever their datasets and resources are.
pub proof fn lemma_larger_keeps_setting(a: JobView, b: JobView)
    requires
        a.costs != b.costs || a.algo != b.algo || a.traceback != b.traceback,
    ensures
        !a.is_larger(b),
{
}

} // verus!
