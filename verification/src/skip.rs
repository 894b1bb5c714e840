//! The rule by which a job is not run because an easier one failed.
//!
//! A job that is at least as hard as a failed one, with the same aligner,
//! cost model and output and with no more resources, is taken to fail too.

use vstd::prelude::*;
use crate::job::{Job, JobView};
use crate::result::{views, JobError, JobResult, JobResultView};

verus! {

/// The failure `prev` keeps `candidate` from running: `prev` failed, and
/// `candidate` is at least as hard with no more resources.
pub open spec fn blocks<S, M>(candidate: JobView, prev: JobResultView<S, M>) -> bool {
    prev.output is Err && candidate.is_larger(prev.job)
}

/// `i` is the first position in `prior` that blocks `candidate`.
pub open spec fn is_first_blocker<S, M>(
    candidate: JobView,
    prior: Seq<JobResultView<S, M>>,
    i: int,
) -> bool {
    &&& 0 <= i < prior.len()
    &&& blocks(candidate, prior[i])
    &&& forall|j: int| 0 <= j < i ==> !blocks(candidate, #[trigger] prior[j])
}

/// The failure under which a job is recorded when the failure `cause` of an
/// easier job keeps it from running: a job that is not supported stays
/// not supported, and every other failure makes it skipped.
pub open spec fn carried_over(cause: JobError) -> JobError {
    if cause == JobError::Unsupported {
        JobError::Unsupported
    } else {
        JobError::Skipped
    }
}

/// Whether `candidate` is skipped given the results `prior`, and as what:
/// the first result that blocks it decides.
pub open spec fn skip_verdict<S, M>(
    candidate: JobView,
    prior: Seq<JobResultView<S, M>>,
) -> Option<JobError> {
    if exists|i: int| is_first_blocker(candidate, prior, i) {
        let i = choose|i: int| is_first_blocker(candidate, prior, i);
        Some(carried_over(prior[i].output->Err_0))
    } else {
        None
    }
}

/// No two positions are both the first that blocks.
pub proof fn lemma_first_blocker_unique<S, M>(
    candidate: JobView,
    prior: Seq<JobResultView<S, M>>,
    i: int,
    j: int,
)
    requires
        is_first_blocker(candidate, prior, i),
        is_first_blocker(candidate, prior, j),
    ensures
        i == j,
{
    if i < j {
        assert(!blocks(candidate, prior[i]));
    } else if j < i {
        assert(!blocks(candidate, prior[j]));
    }
}

/// Decides whether `candidate` is skipped, given the results of this run so
/// far. It is skipped when a failed result is found for a job that
/// `candidate` is larger than; the first such result decides as what.
pub fn skip<S, M>(candidate: &Job, prior: &Vec<JobResult<S, M>>) -> (verdict: Option<JobError>)
    ensures
        verdict == skip_verdict(candidate@, views(prior@)),
        verdict matches Some(e) ==> e == JobError::Skipped || e == JobError::Unsupported,
{
    let ghost c = candidate@;
    let ghost p = views(prior@);
    let mut i: usize = 0;
    while i < prior.len()
        invariant
            i <= prior.len(),
            c == candidate@,
            p == views(prior@),
            p.len() == prior.len(),
            forall|j: int| 0 <= j < i ==> !blocks(c, #[trigger] p[j]),
        decreases prior.len() - i,
    {
        let prev = &prior[i];
        assert(p[i as int] == prev@);
        match &prev.output {
            Err(cause) => {
                if candidate.is_larger(&prev.job) {
                    proof {
                        assert(is_first_blocker(c, p, i as int));
                        let k = choose|k: int| is_first_blocker(c, p, k);
                        lemma_first_blocker_unique(c, p, i as int, k);
                    }
                    return Some(
                        match cause {
                            JobError::Unsupported => JobError::Unsupported,
                            _ => JobError::Skipped,
                        },
                    );
                }
            },
            Ok(_) => {},
        }
        i = i + 1;
    }
    assert(forall|k: int| !is_first_blocker(c, p, k));
    None
}

/// A job is never skipped on account of results for jobs that differ from
/// it in cost model, aligner or output.
pub proof fn lemma_skip_needs_same_setting<S, M>(
    candidate: JobView,
    prior: Seq<JobResultView<S, M>>,
)
    requires
        forall|i: int|
            0 <= i < prior.len() ==> {
                let other = (#[trigger] prior[i]).job;
                candidate.costs != other.costs || candidate.algo != other.algo
                    || candidate.traceback != other.traceback
            },
    ensures
        skip_verdict(candidate, prior) is None,
{
    assert forall|i: int| !is_first_blocker(candidate, prior, i) by {
        if 0 <= i < prior.len() {
            assert(!blocks(candidate, prior[i]));
        }
    }
}

/// A job is skipped exactly when some earlier result blocks it, and only
/// failures for generated datasets block.
pub proof fn lemma_skip_iff_blocked<S, M>(candidate: JobView, prior: Seq<JobResultView<S, M>>)
    ensures
        skip_verdict(candidate, prior) is Some <==> exists|i: int|
            0 <= i < prior.len() && blocks(candidate, #[trigger] prior[i]),
        skip_verdict(candidate, prior) is Some ==> candidate.dataset is Generated,
{
    if exists|i: int| 0 <= i < prior.len() && blocks(candidate, #[trigger] prior[i]) {
        let i = choose|i: int| 0 <= i < prior.len() && blocks(candidate, #[trigger] prior[i]);
        lemma_has_first_blocker(candidate, prior, i);
    }
    if skip_verdict(candidate, prior) is Some {
        let k = choose|k: int| is_first_blocker(candidate, prior, k);
        assert(blocks(candidate, prior[k]));
    }
}

/// Where some result blocks, one is the first to do so.
proof fn lemma_has_first_blocker<S, M>(
    candidate: JobView,
    prior: Seq<JobResultView<S, M>>,
    i: int,
)
    requires
        0 <= i < prior.len(),
        blocks(candidate, prior[i]),
    ensures
        exists|k: int| is_first_blocker(candidate, prior, k),
    decreases i,
{
    if exists|j: int| 0 <= j < i && blocks(candidate, #[trigger] prior[j]) {
        let j = choose|j: int| 0 <= j < i && blocks(candidate, #[trigger] prior[j]);
        lemma_has_first_blocker(candidate, prior, j);
    } else {
        assert(is_first_blocker(candidate, prior, i));
    }
}

} // verus!
