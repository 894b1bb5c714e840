//! What running a job gives: its output or the way it failed, and the
//! resources it used.

use vstd::prelude::*;
use crate::cost::Cost;
use crate::job::{Bytes, Job, JobView};

verus! {

/// The ways in which a job fails. Every failure is one of these eight.
#[derive(Clone, Copy, Debug, PartialEq, Eq, Structural)]
pub enum JobError {
    /// Not run, because an easier job had failed before.
    Skipped,
    /// Interrupted by the user.
    Interrupted,
    /// Killed when its processor time ran out.
    Timeout,
    /// Aborted when memory could not be had.
    MemoryLimit,
    /// Killed by another signal.
    Signal(i32),
    /// The runner panicked.
    Panic,
    /// The aligner does not support the job.
    Unsupported,
    /// The runner exited with another code.
    ExitCode(i32),
}

/// Every failure is one of the eight kinds, and of one only.
pub proof fn lemma_taxonomy_is_closed(e: JobError)
    ensures
        e is Skipped || e is Interrupted || e is Timeout || e is MemoryLimit || e is Signal
            || e is Panic || e is Unsupported || e is ExitCode,
{
}

/// A time in nanoseconds.
pub type Nanos = u64;

/// The resources that a runner process used.
#[derive(Clone, Copy, Debug, PartialEq, Eq, Structural)]
pub struct ResourceUsage {
    /// Time from start to exit.
    pub walltime: Nanos,
    /// Processor time in user mode.
    pub usertime: Nanos,
    /// Processor time in kernel mode.
    pub systemtime: Nanos,
    /// Largest resident set.
    pub maxrss: Bytes,
}

impl ResourceUsage {
    /// No resources at all.
    pub open spec fn spec_zero() -> ResourceUsage {
        ResourceUsage { walltime: 0, usertime: 0, systemtime: 0, maxrss: 0 }
    }

    /// The usage of a job that was not run.
    #[verifier::when_used_as_spec(spec_zero)]
    pub fn zero() -> (r: ResourceUsage)
        ensures
            r == Self::spec_zero(),
    {
        ResourceUsage { walltime: 0, usertime: 0, systemtime: 0, maxrss: 0 }
    }
}

impl Default for ResourceUsage {
    fn default() -> (r: ResourceUsage)
        ensures
            r == ResourceUsage::spec_zero(),
    {
        ResourceUsage::zero()
    }
}

/// The share of costs that agree with the exact ones: `correct` out of
/// `total`.
#[derive(Clone, Copy, Debug, PartialEq, Eq, Structural)]
pub struct Fraction {
    pub correct: usize,
    pub total: usize,
}

impl Fraction {
    /// The fraction is a number from 0 to 1: its denominator is not zero
    /// and its numerator is no larger.
    pub open spec fn in_unit_interval(self) -> bool {
        0 < self.total && self.correct <= self.total
    }
}

/// How many of the first `n` positions hold the same cost in `a` and `b`.
pub open spec fn agreeing_upto(a: Seq<Cost>, b: Seq<Cost>, n: nat) -> nat
    decreases n,
{
    if n == 0 {
        0
    } else {
        agreeing_upto(a, b, (n - 1) as nat) + if a[n - 1] == b[n - 1] {
            1nat
        } else {
            0nat
        }
    }
}

/// How many positions that both sequences have hold the same cost.
pub open spec fn agreeing(a: Seq<Cost>, b: Seq<Cost>) -> nat {
    agreeing_upto(a, b, if a.len() <= b.len() {
        a.len()
    } else {
        b.len()
    })
}

/// No more positions agree than were looked at.
pub proof fn lemma_agreeing_bound(a: Seq<Cost>, b: Seq<Cost>, n: nat)
    ensures
        agreeing_upto(a, b, n) <= n,
    decreases n,
{
    if n != 0 {
        lemma_agreeing_bound(a, b, (n - 1) as nat);
    }
}

/// What a runner reports of a job that it completed. `M` is what it
/// measured while running; it is carried along as it is.
#[derive(Debug)]
pub struct JobOutput<M> {
    /// The cost of each sequence pair. Empty once the costs were found
    /// equal to those of an exact reference.
    pub costs: Vec<Cost>,
    /// The costs of an exact reference, where the aligner is not exact and
    /// a reference was found.
    pub exact_costs: Option<Vec<Cost>>,
    /// Whether the aligner reports optimal costs.
    pub is_exact: bool,
    /// The share of costs that equal the exact ones.
    pub p_correct: Option<Fraction>,
    pub measured: M,
}

/// The mathematical value of a [`JobOutput`].
pub struct JobOutputView<M> {
    pub costs: Seq<Cost>,
    pub exact_costs: Option<Seq<Cost>>,
    pub is_exact: bool,
    pub p_correct: Option<Fraction>,
    pub measured: M,
}

impl<M> JobOutputView<M> {
    /// The share of correct costs is present exactly when the exact costs
    /// are, and then the aligner is not exact, there is at least one cost,
    /// and the share counts the costs that agree with the exact ones.
    pub open spec fn wf(self) -> bool {
        &&& self.p_correct is Some <==> self.exact_costs is Some
        &&& self.exact_costs matches Some(exact) ==> {
            &&& !self.is_exact
            &&& self.costs.len() > 0
            &&& self.p_correct == Some(
                Fraction {
                    correct: agreeing(self.costs, exact) as usize,
                    total: self.costs.len() as usize,
                },
            )
        }
    }

    /// The output can serve as a reference: it is exact and holds costs.
    pub open spec fn is_reference(self) -> bool {
        self.is_exact && self.costs.len() > 0
    }
}

impl<M> View for JobOutput<M> {
    type V = JobOutputView<M>;

    open spec fn view(&self) -> JobOutputView<M> {
        JobOutputView {
            costs: self.costs@,
            exact_costs: match self.exact_costs {
                Some(v) => Some(v@),
                None => None,
            },
            is_exact: self.is_exact,
            p_correct: self.p_correct,
            measured: self.measured,
        }
    }
}

/// A job with what running it gave. `S` is what is known of the job's
/// dataset and `M` what the runner measured; both are carried along as
/// they are.
#[derive(Debug)]
pub struct JobResult<S, M> {
    pub job: Job,
    pub stats: S,
    pub resources: ResourceUsage,
    pub output: Result<JobOutput<M>, JobError>,
}

/// The mathematical value of a [`JobResult`].
pub struct JobResultView<S, M> {
    pub job: JobView,
    pub stats: S,
    pub resources: ResourceUsage,
    pub output: Result<JobOutputView<M>, JobError>,
}

impl<S, M> JobResultView<S, M> {
    pub open spec fn wf(self) -> bool {
        self.output matches Ok(out) ==> out.wf()
    }

    /// The job succeeded with an exact aligner.
    pub open spec fn is_exact(self) -> bool {
        self.output matches Ok(out) && out.is_exact
    }

    /// The result can serve as a reference for jobs with the same input.
    pub open spec fn is_reference(self) -> bool {
        self.output matches Ok(out) && out.is_reference()
    }
}

impl<S, M> View for JobResult<S, M> {
    type V = JobResultView<S, M>;

    open spec fn view(&self) -> JobResultView<S, M> {
        JobResultView {
            job: self.job@,
            stats: self.stats,
            resources: self.resources,
            output: match self.output {
                Ok(out) => Ok(out@),
                Err(e) => Err(e),
            },
        }
    }
}

/// Copies costs.
pub fn copy_costs(costs: &Vec<Cost>) -> (r: Vec<Cost>)
    ensures
        r@ == costs@,
{
    let mut r: Vec<Cost> = Vec::new();
    let mut i: usize = 0;
    while i < costs.len()
        invariant
            i <= costs.len(),
            r@ == costs@.take(i as int),
        decreases costs.len() - i,
    {
        r.push(costs[i]);
        assert(costs@.take(i + 1) =~= costs@.take(i as int).push(costs@[i as int]));
        i = i + 1;
    }
    assert(costs@.take(costs.len() as int) == costs@);
    r
}

impl<M: Clone> Clone for JobOutput<M> {
    /// The copy holds the same costs, and what was measured as its own
    /// copy makes it.
    fn clone(&self) -> (r: JobOutput<M>)
        ensures
            r@.costs == self@.costs,
            r@.exact_costs == self@.exact_costs,
            r.is_exact == self.is_exact,
            r.p_correct == self.p_correct,
            cloned::<M>(self.measured, r.measured),
    {
        JobOutput {
            costs: copy_costs(&self.costs),
            exact_costs: match &self.exact_costs {
                Some(exact) => Some(copy_costs(exact)),
                None => None,
            },
            is_exact: self.is_exact,
            p_correct: self.p_correct,
            measured: self.measured.clone(),
        }
    }
}

impl<S: Clone, M: Clone> Clone for JobResult<S, M> {
    /// The copy is for the same job with the same resources and the same
    /// failure or costs, and holds what its parts make as their copies.
    fn clone(&self) -> (r: JobResult<S, M>)
        ensures
            r@.job == self@.job,
            r.resources == self.resources,
            cloned::<S>(self.stats, r.stats),
            match (self.output, r.output) {
                (Ok(mine), Ok(copy)) => {
                    &&& copy@.costs == mine@.costs
                    &&& copy@.exact_costs == mine@.exact_costs
                    &&& copy.is_exact == mine.is_exact
                    &&& copy.p_correct == mine.p_correct
                    &&& cloned::<M>(mine.measured, copy.measured)
                },
                (Err(mine), Err(copy)) => mine == copy,
                _ => false,
            },
    {
        JobResult {
            job: self.job.clone(),
            stats: self.stats.clone(),
            resources: self.resources,
            output: match &self.output {
                Ok(out) => Ok(out.clone()),
                Err(e) => Err(*e),
            },
        }
    }
}

/// The values of a sequence of results.
pub open spec fn views<S, M>(results: Seq<JobResult<S, M>>) -> Seq<JobResultView<S, M>> {
    results.map_values(|r: JobResult<S, M>| r@)
}

impl<S, M> JobResult<S, M> {
    /// Whether the job succeeded.
    pub fn is_ok(&self) -> (r: bool)
        ensures
            r == (self.output is Ok),
            r == (self@.output is Ok),
    {
        match &self.output {
            Ok(_) => true,
            Err(_) => false,
        }
    }

    /// Whether the job succeeded with an exact aligner.
    pub fn is_exact(&self) -> (r: bool)
        ensures
            r == self@.is_exact(),
    {
        match &self.output {
            Ok(out) => out.is_exact,
            Err(_) => false,
        }
    }

    /// Whether the result can serve as a reference for jobs with the same
    /// input.
    pub fn is_reference(&self) -> (r: bool)
        ensures
            r == self@.is_reference(),
    {
        match &self.output {
            Ok(out) => out.is_exact && out.costs.len() > 0,
            Err(_) => false,
        }
    }
}

} // verus!
