//! The queue of jobs and what a worker does with each of them.
//!
//! Workers share one [`Dispatcher`]. Each worker asks it for its next step,
//! runs the job it was handed if there is one, and hands the result back.
//! Running a job takes place elsewhere; here is every decision around it:
//! when a worker stops, which jobs are skipped, how results are counted and
//! which of them are kept.

use vstd::prelude::*;
use crate::job::Job;
use crate::result::{views, JobError, JobOutputView, JobResult, ResourceUsage};
use crate::skip::{skip, skip_verdict};

verus! {

/// The kinds of result that are counted apart.
#[derive(Clone, Copy, Debug, PartialEq, Eq, Structural)]
pub enum Outcome {
    Success,
    Skipped,
    Unsupported,
    Interrupted,
    Failed,
}

/// The kind under which a result is counted.
pub open spec fn outcome_of<M>(output: Result<JobOutputView<M>, JobError>) -> Outcome {
    match output {
        Ok(_) => Outcome::Success,
        Err(JobError::Skipped) => Outcome::Skipped,
        Err(JobError::Unsupported) => Outcome::Unsupported,
        Err(JobError::Interrupted) => Outcome::Interrupted,
        Err(_) => Outcome::Failed,
    }
}

/// How many jobs are done, and how they ended. Interrupted jobs are counted
/// as done only.
#[derive(Clone, Copy, Debug, PartialEq, Eq, Structural)]
pub struct Counts {
    pub done: usize,
    pub success: usize,
    pub unsupported: usize,
    pub skipped: usize,
    pub failed: usize,
}

impl Counts {
    pub open spec fn spec_zero() -> Counts {
        Counts { done: 0, success: 0, unsupported: 0, skipped: 0, failed: 0 }
    }

    /// The counts before any job is done.
    #[verifier::when_used_as_spec(spec_zero)]
    pub fn zero() -> (c: Counts)
        ensures
            c == Self::spec_zero(),
    {
        Counts { done: 0, success: 0, unsupported: 0, skipped: 0, failed: 0 }
    }

    /// No kind is counted more often than jobs are done.
    pub open spec fn wf(self) -> bool {
        self.success + self.unsupported + self.skipped + self.failed <= self.done
    }

    /// The counts after one more job, which ended as `outcome`.
    pub open spec fn after(self, outcome: Outcome) -> Counts
        recommends
            self.done < usize::MAX,
            self.wf(),
    {
        match outcome {
            Outcome::Success => Counts {
                done: (self.done + 1) as usize,
                success: (self.success + 1) as usize,
                ..self
            },
            Outcome::Skipped => Counts {
                done: (self.done + 1) as usize,
                skipped: (self.skipped + 1) as usize,
                ..self
            },
            Outcome::Unsupported => Counts {
                done: (self.done + 1) as usize,
                unsupported: (self.unsupported + 1) as usize,
                ..self
            },
            Outcome::Interrupted => Counts { done: (self.done + 1) as usize, ..self },
            Outcome::Failed => Counts {
                done: (self.done + 1) as usize,
                failed: (self.failed + 1) as usize,
                ..self
            },
        }
    }

    /// Counts one more job, which ended as `outcome`.
    pub fn count(&mut self, outcome: Outcome)
        requires
            old(self).wf(),
            old(self).done < usize::MAX,
        ensures
            *final(self) == old(self).after(outcome),
            final(self).wf(),
    {
        self.done = self.done + 1;
        match outcome {
            Outcome::Success => {
                self.success = self.success + 1;
            },
            Outcome::Skipped => {
                self.skipped = self.skipped + 1;
            },
            Outcome::Unsupported => {
                self.unsupported = self.unsupported + 1;
            },
            Outcome::Interrupted => {},
            Outcome::Failed => {
                self.failed = self.failed + 1;
            },
        }
    }
}

/// What a worker does next.
#[derive(Debug)]
pub enum Step<S, M> {
    /// Nothing more: the queue is empty or the run is being stopped.
    Stop,
    /// The job is not run. This is the result to hand back.
    Skip(JobResult<S, M>),
    /// The job is to be run, and its result handed back.
    Run(Job, S),
}

/// What became of a result that was handed back.
#[derive(Clone, Copy, Debug, PartialEq, Eq, Structural)]
pub struct Recorded {
    /// The kind under which it was counted.
    pub outcome: Outcome,
    /// Whether it was added to the results of the run.
    pub kept: bool,
    /// Whether it is a failure that is worth reporting in full.
    pub report: bool,
}

/// The jobs that wait, the results so far and the counts of a run.
pub struct Dispatcher<S, M> {
    // The jobs that wait, the next one last.
    waiting: Vec<(Job, S)>,
    results: Vec<JobResult<S, M>>,
    counts: Counts,
    in_flight: usize,
    total: usize,
}

fn reversed<T>(v: Vec<T>) -> (r: Vec<T>)
    ensures
        r@ == v@.reverse(),
{
    let mut v = v;
    let mut r: Vec<T> = Vec::new();
    let ghost all = v@;
    while v.len() > 0
        invariant
            v@ == all.take(v.len() as int),
            r.len() + v.len() == all.len(),
            forall|i: int| 0 <= i < r.len() ==> r@[i] == all[all.len() - 1 - i],
        decreases v.len(),
    {
        let x = v.pop().unwrap();
        r.push(x);
    }
    assert(r@ =~= all.reverse());
    r
}

impl<S, M> Dispatcher<S, M> {
    /// The jobs that wait, in the order in which they will be handed out.
    pub closed spec fn queue(&self) -> Seq<(Job, S)> {
        self.waiting@.reverse()
    }

    /// The results that were kept so far, in the order in which they came.
    pub closed spec fn results(&self) -> Seq<JobResult<S, M>> {
        self.results@
    }

    pub closed spec fn spec_counts(&self) -> Counts {
        self.counts
    }

    /// How many jobs were handed out and have not come back.
    pub closed spec fn spec_in_flight(&self) -> usize {
        self.in_flight
    }

    /// How many jobs the run started with.
    pub closed spec fn spec_total(&self) -> usize {
        self.total
    }

    /// Jobs that wait, that are out and that are done are no more than the
    /// run started with, and no more results are kept than jobs are done.
    #[verifier::type_invariant]
    spec fn wf(&self) -> bool {
        &&& self.counts.wf()
        &&& self.counts.done + self.in_flight + self.waiting.len() <= self.total
        &&& self.results.len() <= self.counts.done
    }

    /// A run of `jobs`, none of them started.
    pub fn new(jobs: Vec<(Job, S)>) -> (d: Dispatcher<S, M>)
        ensures
            d.queue() == jobs@,
            d.results() == Seq::<JobResult<S, M>>::empty(),
            d.spec_counts() == Counts::spec_zero(),
            d.spec_in_flight() == 0,
            d.spec_total() == jobs.len(),
    {
        let total = jobs.len();
        let waiting = reversed(jobs);
        assert(jobs@.reverse().reverse() =~= jobs@);
        Dispatcher { waiting, results: Vec::new(), counts: Counts::zero(), in_flight: 0, total }
    }

    /// The counts so far. No kind is counted more often than jobs are
    /// done, no more results are kept than jobs are done, and the jobs
    /// that are done, that are out and that wait are no more than the run
    /// started with.
    #[verifier::when_used_as_spec(spec_counts)]
    pub fn counts(&self) -> (c: Counts)
        ensures
            c == self.spec_counts(),
            c.wf(),
            self.results().len() <= c.done,
            c.done + self.spec_in_flight() + self.queue().len() <= self.spec_total(),
    {
        proof {
            use_type_invariant(self);
        }
        self.counts
    }

    /// How many jobs were handed out and have not come back.
    #[verifier::when_used_as_spec(spec_in_flight)]
    pub fn in_flight(&self) -> (n: usize)
        ensures
            n == self.spec_in_flight(),
    {
        self.in_flight
    }

    /// How many jobs the run started with.
    #[verifier::when_used_as_spec(spec_total)]
    pub fn total(&self) -> (n: usize)
        ensures
            n == self.spec_total(),
    {
        self.total
    }

    /// Takes the next job from the queue and decides what to do with it.
    ///
    /// With an empty queue the worker stops. Otherwise the first job leaves
    /// the queue. If the run is being stopped (`running` is false) the job
    /// is dropped and the worker stops. If not, the job is held against the
    /// results so far: it is skipped if one of them blocks it, and run if
    /// none does.
    pub fn next(&mut self, running: bool) -> (step: Step<S, M>)
        ensures
            final(self).results() == old(self).results(),
            final(self).spec_counts() == old(self).spec_counts(),
            final(self).spec_total() == old(self).spec_total(),
            old(self).queue().len() == 0 ==> {
                &&& step is Stop
                &&& final(self).queue() == old(self).queue()
                &&& final(self).spec_in_flight() == old(self).spec_in_flight()
            },
            old(self).queue().len() > 0 ==> {
                let (job, stats) = old(self).queue()[0];
                &&& final(self).queue() == old(self).queue().drop_first()
                &&& !running ==> {
                    &&& step is Stop
                    &&& final(self).spec_in_flight() == old(self).spec_in_flight()
                }
                &&& running ==> {
                    &&& final(self).spec_in_flight() == old(self).spec_in_flight() + 1
                    &&& match skip_verdict(job@, views(old(self).results())) {
                        Some(e) => step == Step::Skip(
                            JobResult::<S, M> {
                                job,
                                stats,
                                resources: ResourceUsage::spec_zero(),
                                output: Err(e),
                            },
                        ),
                        None => step == Step::<S, M>::Run(job, stats),
                    }
                }
            },
    {
        let ghost before = self.waiting@;
        proof {
            use_type_invariant(&*self);
        }
        // The queue is taken out while its first job is removed.
        let mut waiting: Vec<(Job, S)> = Vec::new();
        std::mem::swap(&mut self.waiting, &mut waiting);
        let first = waiting.pop();
        std::mem::swap(&mut self.waiting, &mut waiting);
        match first {
            None => Step::Stop,
            Some((job, stats)) => {
                proof {
                    assert(self.waiting@.reverse() =~= before.reverse().drop_first());
                    assert(before.reverse()[0] == (job, stats));
                }
                if !running {
                    return Step::Stop;
                }
                self.in_flight = self.in_flight + 1;
                match skip(&job, &self.results) {
                    Some(e) => Step::Skip(
                        JobResult { job, stats, resources: ResourceUsage::zero(), output: Err(e) },
                    ),
                    None => Step::Run(job, stats),
                }
            },
        }
    }

    /// Takes back the result of a job that was handed out.
    ///
    /// The result is counted under its kind. It is kept unless the job
    /// failed while the run was being stopped (`running` is false): such a
    /// failure may have no other cause than the stop. Failures other than
    /// skipped, unsupported and interrupted jobs are worth reporting.
    pub fn record(&mut self, result: JobResult<S, M>, running: bool) -> (r: Recorded)
        requires
            old(self).spec_in_flight() > 0,
        ensures
            final(self).queue() == old(self).queue(),
            final(self).spec_total() == old(self).spec_total(),
            final(self).spec_in_flight() == old(self).spec_in_flight() - 1,
            final(self).spec_counts() == old(self).spec_counts().after(outcome_of(result@.output)),
            r.outcome == outcome_of(result@.output),
            r.kept == (result.output is Ok || running),
            r.report == (r.outcome == Outcome::Failed),
            final(self).results() == if r.kept {
                old(self).results().push(result)
            } else {
                old(self).results()
            },
    {
        let outcome = match &result.output {
            Ok(_) => Outcome::Success,
            Err(JobError::Skipped) => Outcome::Skipped,
            Err(JobError::Unsupported) => Outcome::Unsupported,
            Err(JobError::Interrupted) => Outcome::Interrupted,
            Err(_) => Outcome::Failed,
        };
        proof {
            use_type_invariant(&*self);
        }
        self.in_flight = self.in_flight - 1;
        let mut counts = self.counts;
        counts.count(outcome);
        self.counts = counts;
        let kept = result.is_ok() || running;
        if kept {
            // The results are taken out while one is added.
            let mut results: Vec<JobResult<S, M>> = Vec::new();
            std::mem::swap(&mut self.results, &mut results);
            results.push(result);
            std::mem::swap(&mut self.results, &mut results);
        }
        let report = match outcome {
            Outcome::Failed => true,
            _ => false,
        };
        Recorded { outcome, kept, report }
    }

    /// Ends the run and gives the results that were kept.
    pub fn into_results(self) -> (results: Vec<JobResult<S, M>>)
        ensures
            results@ == self.results(),
    {
        self.results
    }
}

} // verus!
