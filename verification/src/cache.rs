//! The store of results that outlives a run.
//!
//! Before a run the stored results are split into those for jobs of the
//! experiment and the rest, and the jobs that a stored result answers are
//! taken off the list. After the run the fresh results replace the stored
//! ones for the same jobs.

use vstd::prelude::*;
use crate::job::{Job, JobView};
use crate::result::{views, JobResult, JobResultView};
use crate::seqs::{
    kept_positions,
    lemma_filter_contains,
    lemma_filter_push,
    lemma_kept_positions,
    lemma_take_push,
};

verus! {

/// Some job of `jobs` is the same as `job` but for its resources.
pub open spec fn in_experiment<T>(job: JobView, jobs: Seq<(Job, T)>) -> bool {
    exists|i: int| 0 <= i < jobs.len() && (#[trigger] jobs[i]).0@.is_same_as(job)
}

/// The stored result `entry` answers the job `candidate`: it is for the
/// same job but for its resources, and either it succeeded, or failures are
/// not run again and it had at least the resources of `candidate`.
pub open spec fn answers<S, M>(
    entry: JobResultView<S, M>,
    candidate: JobView,
    rerun_failed: bool,
) -> bool {
    &&& entry.job.is_same_as(candidate)
    &&& entry.output is Ok || (!rerun_failed && entry.job.has_more_resources_than(candidate))
}

/// Some stored result answers the job `candidate`.
pub open spec fn reusable<S, M>(
    candidate: JobView,
    stored: Seq<JobResultView<S, M>>,
    rerun_failed: bool,
) -> bool {
    exists|i: int| 0 <= i < stored.len() && answers(#[trigger] stored[i], candidate, rerun_failed)
}

/// Some fresh result is for the same job as `job` but for its resources.
pub open spec fn superseded<S, M>(job: JobView, fresh: Seq<JobResultView<S, M>>) -> bool {
    exists|i: int| 0 <= i < fresh.len() && (#[trigger] fresh[i]).job.is_same_as(job)
}

/// The stored results that belong to the experiment with the jobs `jobs`.
pub open spec fn belongs<S, M, T>(jobs: Seq<(Job, T)>) -> spec_fn(JobResult<S, M>) -> bool {
    |r: JobResult<S, M>| in_experiment(r@.job, jobs)
}

/// The stored results that do not belong to the experiment.
pub open spec fn belongs_not<S, M, T>(jobs: Seq<(Job, T)>) -> spec_fn(JobResult<S, M>) -> bool {
    |r: JobResult<S, M>| !in_experiment(r@.job, jobs)
}

/// The jobs that no stored result answers.
pub open spec fn unanswered<S, M, T>(
    stored: Seq<JobResult<S, M>>,
    rerun_failed: bool,
) -> spec_fn((Job, T)) -> bool {
    |j: (Job, T)| !reusable(j.0@, views(stored), rerun_failed)
}

/// The stored results that no fresh one replaces.
pub open spec fn survives<S, M>(fresh: Seq<JobResult<S, M>>) -> spec_fn(JobResult<S, M>) -> bool {
    |r: JobResult<S, M>| !superseded(r@.job, views(fresh))
}

/// The jobs to run, given the stored results of the experiment.
pub open spec fn residual<S, M, T>(
    stored: Seq<JobResult<S, M>>,
    jobs: Seq<(Job, T)>,
    rerun_failed: bool,
) -> Seq<(Job, T)> {
    jobs.filter(unanswered::<S, M, T>(stored, rerun_failed))
}

/// The results of the experiment after a run: the stored ones that no
/// fresh result replaces, and then the fresh ones.
pub open spec fn merged<S, M>(
    stored: Seq<JobResult<S, M>>,
    fresh: Seq<JobResult<S, M>>,
) -> Seq<JobResult<S, M>> {
    stored.filter(survives(fresh)) + fresh
}

fn is_in_experiment<T>(job: &Job, jobs: &Vec<(Job, T)>) -> (r: bool)
    ensures
        r == in_experiment(job@, jobs@),
{
    let mut i: usize = 0;
    while i < jobs.len()
        invariant
            i <= jobs.len(),
            forall|k: int| 0 <= k < i ==> !(#[trigger] jobs@[k]).0@.is_same_as(job@),
        decreases jobs.len() - i,
    {
        if jobs[i].0.is_same_as(job) {
            return true;
        }
        i = i + 1;
    }
    false
}

fn is_reusable<S, M>(candidate: &Job, stored: &Vec<JobResult<S, M>>, rerun_failed: bool) -> (r:
    bool)
    ensures
        r == reusable(candidate@, views(stored@), rerun_failed),
{
    let ghost v = views(stored@);
    let mut i: usize = 0;
    while i < stored.len()
        invariant
            i <= stored.len(),
            v == views(stored@),
            forall|k: int| 0 <= k < i ==> !answers(#[trigger] v[k], candidate@, rerun_failed),
        decreases stored.len() - i,
    {
        let entry = &stored[i];
        assert(v[i as int] == entry@);
        if entry.job.is_same_as(candidate) && (entry.is_ok() || (!rerun_failed
            && entry.job.has_more_resources_than(candidate))) {
            return true;
        }
        i = i + 1;
    }
    false
}

fn is_superseded<S, M>(job: &Job, fresh: &Vec<JobResult<S, M>>) -> (r: bool)
    ensures
        r == superseded(job@, views(fresh@)),
{
    let ghost v = views(fresh@);
    let mut i: usize = 0;
    while i < fresh.len()
        invariant
            i <= fresh.len(),
            v == views(fresh@),
            forall|k: int| 0 <= k < i ==> !(#[trigger] v[k]).job.is_same_as(job@),
        decreases fresh.len() - i,
    {
        assert(v[i as int] == fresh@[i as int]@);
        if fresh[i].job.is_same_as(job) {
            return true;
        }
        i = i + 1;
    }
    false
}

/// Splits the stored results into those of the experiment and the rest.
///
/// A stored result belongs to the experiment if one of `jobs` is the same
/// job but for its resources. Both parts keep the order of `cache`.
pub fn partition<S, M, T>(cache: Vec<JobResult<S, M>>, jobs: &Vec<(Job, T)>) -> (parts: (
    Vec<JobResult<S, M>>,
    Vec<JobResult<S, M>>,
))
    ensures
        parts.0@ == cache@.filter(belongs::<S, M, T>(jobs@)),
        parts.1@ == cache@.filter(belongs_not::<S, M, T>(jobs@)),
{
    let mut in_set: Vec<JobResult<S, M>> = Vec::new();
    let mut extra: Vec<JobResult<S, M>> = Vec::new();
    let ghost all = cache@;
    for entry in it: cache
        invariant
            it.seq() == all,
            in_set@ == all.take(it.index() as int).filter(belongs::<S, M, T>(jobs@)),
            extra@ == all.take(it.index() as int).filter(belongs_not::<S, M, T>(jobs@)),
    {
        proof {
            let i = it.index() as int;
            lemma_take_push(all, i);
            lemma_filter_push(all.take(i), all[i], belongs::<S, M, T>(jobs@));
            lemma_filter_push(all.take(i), all[i], belongs_not::<S, M, T>(jobs@));
        }
        if is_in_experiment(&entry.job, jobs) {
            in_set.push(entry);
        } else {
            extra.push(entry);
        }
    }
    proof {
        assert(all.take(all.len() as int) == all);
    }
    (in_set, extra)
}

/// Takes the jobs off the list that a stored result answers.
///
/// A job is answered by a stored result for the same job that succeeded.
/// Unless failures are run again (`rerun_failed`), it is also answered by
/// one that failed with at least the job's resources. The jobs that are
/// left keep their order.
pub fn reuse_filter<S, M, T>(
    in_set: &Vec<JobResult<S, M>>,
    jobs: Vec<(Job, T)>,
    rerun_failed: bool,
) -> (left: Vec<(Job, T)>)
    ensures
        left@ == residual(in_set@, jobs@, rerun_failed),
{
    let mut left: Vec<(Job, T)> = Vec::new();
    let ghost all = jobs@;
    let ghost keep = unanswered::<S, M, T>(in_set@, rerun_failed);
    for job in it: jobs
        invariant
            it.seq() == all,
            keep == unanswered::<S, M, T>(in_set@, rerun_failed),
            left@ == all.take(it.index() as int).filter(keep),
    {
        proof {
            let i = it.index() as int;
            lemma_take_push(all, i);
            lemma_filter_push(all.take(i), all[i], keep);
        }
        if !is_reusable(&job.0, in_set, rerun_failed) {
            left.push(job);
        }
    }
    proof {
        assert(all.take(all.len() as int) == all);
    }
    left
}

/// The jobs to run: all of them if `rerun_all` holds, and else those that
/// no stored result answers.
pub fn jobs_to_run<S, M, T>(
    in_set: &Vec<JobResult<S, M>>,
    jobs: Vec<(Job, T)>,
    rerun_all: bool,
    rerun_failed: bool,
) -> (left: Vec<(Job, T)>)
    ensures
        left@ == if rerun_all {
            jobs@
        } else {
            residual(in_set@, jobs@, rerun_failed)
        },
{
    if rerun_all {
        jobs
    } else {
        reuse_filter(in_set, jobs, rerun_failed)
    }
}

/// Replaces stored results by fresh ones.
///
/// A stored result is dropped if a fresh result is for the same job but
/// for its resources. The stored results that are left come first, in
/// their order, and the fresh ones follow in theirs.
pub fn merge<S, M>(in_set: Vec<JobResult<S, M>>, fresh: Vec<JobResult<S, M>>) -> (all: Vec<
    JobResult<S, M>,
>)
    ensures
        all@ == merged(in_set@, fresh@),
{
    let mut out: Vec<JobResult<S, M>> = Vec::new();
    let mut fresh = fresh;
    let ghost stored = in_set@;
    let ghost keep = survives(fresh@);
    for entry in it: in_set
        invariant
            it.seq() == stored,
            keep == survives(fresh@),
            out@ == stored.take(it.index() as int).filter(keep),
    {
        proof {
            let i = it.index() as int;
            lemma_take_push(stored, i);
            lemma_filter_push(stored.take(i), stored[i], keep);
        }
        if !is_superseded(&entry.job, &fresh) {
            out.push(entry);
        }
    }
    proof {
        assert(stored.take(stored.len() as int) == stored);
    }
    out.append(&mut fresh);
    out
}

/// The results to store after a run: those of the experiment, and then the
/// stored results of other experiments.
pub fn with_extra<S, M>(experiment: Vec<JobResult<S, M>>, extra: Vec<JobResult<S, M>>) -> (all:
    Vec<JobResult<S, M>>)
    ensures
        all@ == experiment@ + extra@,
{
    let mut all = experiment;
    let mut extra = extra;
    all.append(&mut extra);
    all
}

/// No two results are for the same job but for its resources.
pub open spec fn distinct<S, M>(results: Seq<JobResultView<S, M>>) -> bool {
    forall|i: int, j: int|
        0 <= i < j < results.len() ==> !(#[trigger] results[i]).job.is_same_as(
            (#[trigger] results[j]).job,
        )
}

/// A failure that was stored with less time or less memory than a job has
/// does not answer the job, whether failures are run again or not: unless
/// another stored result answers it, the job is run.
pub proof fn lemma_failure_with_fewer_resources_is_rerun<S, M, T>(
    stored: Seq<JobResult<S, M>>,
    jobs: Seq<(Job, T)>,
    i: int,
    rerun_failed: bool,
)
    requires
        0 <= i < jobs.len(),
        forall|k: int|
            0 <= k < stored.len() && (#[trigger] stored[k])@.job.is_same_as(jobs[i].0@) ==> {
                &&& stored[k]@.output is Err
                &&& !stored[k]@.job.has_more_resources_than(jobs[i].0@)
            },
    ensures
        !reusable(jobs[i].0@, views(stored), rerun_failed),
        residual(stored, jobs, rerun_failed).contains(jobs[i]),
{
    assert forall|k: int| 0 <= k < views(stored).len() implies !answers(
        #[trigger] views(stored)[k],
        jobs[i].0@,
        rerun_failed,
    ) by {
        assert(views(stored)[k] == stored[k]@);
    }
    lemma_filter_contains(jobs, unanswered::<S, M, T>(stored, rerun_failed), jobs[i]);
}

/// A stored result that succeeded answers every job that it is for, and a
/// stored failure answers the jobs that it is for and that have no more
/// resources, unless failures are run again.
pub proof fn lemma_answered_job_is_not_run<S, M, T>(
    stored: Seq<JobResult<S, M>>,
    jobs: Seq<(Job, T)>,
    i: int,
    k: int,
    rerun_failed: bool,
)
    requires
        0 <= i < jobs.len(),
        0 <= k < stored.len(),
        answers(stored[k]@, jobs[i].0@, rerun_failed),
    ensures
        !residual(stored, jobs, rerun_failed).contains(jobs[i]),
{
    assert(views(stored)[k] == stored[k]@);
    lemma_filter_contains(jobs, unanswered::<S, M, T>(stored, rerun_failed), jobs[i]);
}

/// After a run that gave a result for each job of the experiment, nothing
/// is left to run: with the results stored, and failures not run again, no
/// job of the experiment is run a second time. This holds whatever was
/// stored before the run, for this experiment (`stored`) and for others
/// (`extra`).
pub proof fn lemma_rerun_runs_nothing<S, M, T>(
    stored: Seq<JobResult<S, M>>,
    extra: Seq<JobResult<S, M>>,
    fresh: Seq<JobResult<S, M>>,
    jobs: Seq<(Job, T)>,
)
    requires
        forall|i: int|
            0 <= i < jobs.len() ==> exists|k: int|
                0 <= k < fresh.len() && (#[trigger] fresh[k])@.job == (#[trigger] jobs[i]).0@,
    ensures
        residual(
            (merged(stored, fresh) + extra).filter(belongs::<S, M, T>(jobs)),
            jobs,
            false,
        ).len() == 0,
{
    let cache = merged(stored, fresh) + extra;
    let in_set = cache.filter(belongs::<S, M, T>(jobs));
    let keep = unanswered::<S, M, T>(in_set, false);
    let left = jobs.filter(keep);
    if left.len() > 0 {
        let job = left[0];
        assert(left.contains(job));
        lemma_filter_contains(jobs, keep, job);
        let i = choose|i: int| 0 <= i < jobs.len() && jobs[i] == job;
        let k = choose|k: int| 0 <= k < fresh.len() && (#[trigger] fresh[k])@.job == jobs[i].0@;
        let r = fresh[k];
        let at = stored.filter(survives(fresh)).len() + k;
        assert(cache[at] == r);
        assert(cache.contains(r));
        assert(jobs[i].0@.is_same_as(r@.job));
        assert(in_experiment(r@.job, jobs));
        lemma_filter_contains(cache, belongs::<S, M, T>(jobs), r);
        let m = choose|m: int| 0 <= m < in_set.len() && in_set[m] == r;
        assert(views(in_set)[m] == r@);
        assert(answers(views(in_set)[m], job.0@, false));
        assert(false);
    }
}

/// Merging keeps the results apart: where no two stored results and no two
/// fresh results are for the same job, no two merged results are.
pub proof fn lemma_merge_keeps_distinct<S, M>(
    stored: Seq<JobResult<S, M>>,
    fresh: Seq<JobResult<S, M>>,
)
    requires
        distinct(views(stored)),
        distinct(views(fresh)),
    ensures
        distinct(views(merged(stored, fresh))),
{
    let kept = stored.filter(survives(fresh));
    let all = merged(stored, fresh);
    lemma_kept_positions(stored, survives(fresh));
    let at = kept_positions(stored, survives(fresh));
    assert forall|i: int, j: int| 0 <= i < j < views(all).len() implies !(#[trigger] views(
        all,
    )[i]).job.is_same_as((#[trigger] views(all)[j]).job) by {
        assert(views(all)[i] == all[i]@);
        assert(views(all)[j] == all[j]@);
        if j < kept.len() {
            assert(views(stored)[at[i]] == stored[at[i]]@);
            assert(views(stored)[at[j]] == stored[at[j]]@);
        } else if i < kept.len() {
            let k = j - kept.len();
            assert(views(fresh)[k] == fresh[k]@);
        } else {
            let a = i - kept.len();
            let b = j - kept.len();
            assert(views(fresh)[a] == fresh[a]@);
            assert(views(fresh)[b] == fresh[b]@);
        }
    }
}

/// The store keeps its results apart over a run. If no two stored results
/// are for the same job, and the run gives one result for each of some
/// jobs of the experiment, then no two results are for the same job once
/// the fresh results are merged in and the results of other experiments
/// are put behind them.
pub proof fn lemma_store_stays_distinct<S, M, T>(
    cache: Seq<JobResult<S, M>>,
    jobs: Seq<(Job, T)>,
    fresh: Seq<JobResult<S, M>>,
)
    requires
        distinct(views(cache)),
        distinct(views(fresh)),
        forall|k: int| 0 <= k < fresh.len() ==> in_experiment((#[trigger] fresh[k])@.job, jobs),
    ensures
        distinct(
            views(
                merged(cache.filter(belongs::<S, M, T>(jobs)), fresh) + cache.filter(
                    belongs_not::<S, M, T>(jobs),
                ),
            ),
        ),
{
    let in_set = cache.filter(belongs::<S, M, T>(jobs));
    let extra = cache.filter(belongs_not::<S, M, T>(jobs));
    let experiment = merged(in_set, fresh);
    let all = experiment + extra;
    lemma_kept_positions(cache, belongs::<S, M, T>(jobs));
    lemma_kept_positions(cache, belongs_not::<S, M, T>(jobs));
    let at_in = kept_positions(cache, belongs::<S, M, T>(jobs));
    let at_extra = kept_positions(cache, belongs_not::<S, M, T>(jobs));
    assert(distinct(views(in_set))) by {
        assert forall|i: int, j: int| 0 <= i < j < views(in_set).len() implies !(#[trigger] views(
            in_set,
        )[i]).job.is_same_as((#[trigger] views(in_set)[j]).job) by {
            assert(views(cache)[at_in[i]] == cache[at_in[i]]@);
            assert(views(cache)[at_in[j]] == cache[at_in[j]]@);
            assert(views(in_set)[i] == in_set[i]@);
            assert(views(in_set)[j] == in_set[j]@);
        }
    }
    lemma_merge_keeps_distinct(in_set, fresh);
    lemma_kept_positions(in_set, survives(fresh));
    assert forall|i: int| 0 <= i < experiment.len() implies in_experiment(
        (#[trigger] experiment[i])@.job,
        jobs,
    ) by {
        let kept = in_set.filter(survives(fresh));
        if i < kept.len() {
            let a = kept_positions(in_set, survives(fresh))[i];
            assert(in_set[a] == kept[i]);
        } else {
            assert(experiment[i] == fresh[i - kept.len()]);
        }
    }
    assert forall|i: int, j: int| 0 <= i < j < views(all).len() implies !(#[trigger] views(
        all,
    )[i]).job.is_same_as((#[trigger] views(all)[j]).job) by {
        assert(views(all)[i] == all[i]@);
        assert(views(all)[j] == all[j]@);
        if j < experiment.len() {
            assert(views(experiment)[i] == experiment[i]@);
            assert(views(experiment)[j] == experiment[j]@);
        } else if i < experiment.len() {
            let b = j - experiment.len();
            assert(!in_experiment(extra[b]@.job, jobs));
            if all[i]@.job.is_same_as(all[j]@.job) {
                let w = choose|w: int|
                    0 <= w < jobs.len() && (#[trigger] jobs[w]).0@.is_same_as(experiment[i]@.job);
                assert(jobs[w].0@.is_same_as(extra[b]@.job));
            }
        } else {
            let a = i - experiment.len();
            let b = j - experiment.len();
            assert(views(cache)[at_extra[a]] == cache[at_extra[a]]@);
            assert(views(cache)[at_extra[b]] == cache[at_extra[b]]@);
        }
    }
}

} // verus!
