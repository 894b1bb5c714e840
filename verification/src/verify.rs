//! Checking the costs that different aligners report against each other.
//!
//! An exact aligner reports the optimal cost of every sequence pair, so two
//! exact aligners agree on the same input. The first exact result for an
//! input is the reference for the others: an exact result that agrees with
//! it gives up its costs, which can be had from the reference, one that
//! does not is a disagreement, and a result that is not exact is rated by
//! how many of its costs are optimal.

use vstd::prelude::*;
use crate::cost::Cost;
use crate::job::{Job, JobView};
use crate::result::{
    agreeing,
    agreeing_upto,
    copy_costs,
    views,
    Fraction,
    JobOutput,
    JobOutputView,
    JobResult,
    JobResultView,
};
use crate::consistency::lemma_check_is_sound;
use crate::seqs::{lemma_filter_push, lemma_take_push};

verus! {

/// The results of jobs that succeeded with an exact aligner.
pub open spec fn exact<S, M>() -> spec_fn(JobResult<S, M>) -> bool {
    |r: JobResult<S, M>| r@.is_exact()
}

/// The results of jobs that failed or whose aligner is not exact.
pub open spec fn inexact<S, M>() -> spec_fn(JobResult<S, M>) -> bool {
    |r: JobResult<S, M>| !r@.is_exact()
}

/// The results with the exact ones moved to the front. Among the exact
/// ones and among the others the order stays.
pub open spec fn exact_first<S, M>(results: Seq<JobResult<S, M>>) -> Seq<JobResult<S, M>> {
    results.filter(exact()) + results.filter(inexact())
}

/// `r` can serve as the reference for `job`: it has the same input, and it
/// is exact and holds costs.
pub open spec fn is_reference_for<S, M>(r: JobResultView<S, M>, job: JobView) -> bool {
    r.job.same_input(job) && r.is_reference()
}

/// `i` is the first position in `baselines` of a reference for `job`.
pub open spec fn is_first_reference<S, M>(
    baselines: Seq<JobResultView<S, M>>,
    job: JobView,
    i: int,
) -> bool {
    &&& 0 <= i < baselines.len()
    &&& is_reference_for(baselines[i], job)
    &&& forall|j: int| 0 <= j < i ==> !is_reference_for(#[trigger] baselines[j], job)
}

/// The position of the first reference for `job` in `baselines`.
pub open spec fn first_reference<S, M>(baselines: Seq<JobResultView<S, M>>, job: JobView) -> Option<
    int,
> {
    if exists|i: int| is_first_reference(baselines, job, i) {
        Some(choose|i: int| is_first_reference(baselines, job, i))
    } else {
        None
    }
}

/// The costs of the first reference for `job` in `baselines`.
pub open spec fn reference_costs<S, M>(
    baselines: Seq<JobResultView<S, M>>,
    job: JobView,
) -> Option<Seq<Cost>> {
    match first_reference(baselines, job) {
        Some(i) => Some(baselines[i].output->Ok_0.costs),
        None => None,
    }
}

/// The result `r` is looked at: its job succeeded and it holds costs.
pub open spec fn is_checked<S, M>(r: JobResultView<S, M>) -> bool {
    r.output matches Ok(out) && out.costs.len() > 0
}

/// The exact result `r` reports other costs than its reference.
pub open spec fn disagrees<S, M>(r: JobResultView<S, M>, reference: Option<Seq<Cost>>) -> bool {
    &&& is_checked(r)
    &&& r.is_exact()
    &&& reference matches Some(costs)
    &&& r.output->Ok_0.costs != costs
}

/// `a` and `b` are exact results with the same input, so that their costs
/// are the same if both aligners are right. Left out are pairs of which
/// one result holds costs and the other has given them up: those are not
/// held against each other.
pub open spec fn comparable<S, M>(a: JobResultView<S, M>, b: JobResultView<S, M>) -> bool {
    &&& a.is_exact()
    &&& b.is_exact()
    &&& a.job.same_input(b.job)
    &&& is_checked(a) == is_checked(b)
}

/// The share of correct costs of `r`, where it is present, is a number
/// from 0 to 1.
pub open spec fn share_in_unit_interval<S, M>(r: JobResultView<S, M>) -> bool {
    match r.output {
        Ok(out) => match out.p_correct {
            Some(share) => share.in_unit_interval(),
            None => true,
        },
        Err(_) => true,
    }
}

/// The share of `costs` that agree with `exact`.
pub open spec fn rating(costs: Seq<Cost>, exact: Seq<Cost>) -> Fraction {
    Fraction { correct: agreeing(costs, exact) as usize, total: costs.len() as usize }
}

/// The output `out` after it was held against the costs `costs` of its
/// reference.
///
/// An exact output that agrees with the reference gives up its costs, and
/// one that disagrees stays as it is. An output that is not exact takes
/// the costs of the reference as its exact costs, and is rated.
pub open spec fn checked_output<M>(out: JobOutputView<M>, costs: Seq<Cost>) -> JobOutputView<M> {
    if out.is_exact {
        if out.costs == costs {
            JobOutputView { costs: Seq::<Cost>::empty(), ..out }
        } else {
            out
        }
    } else {
        JobOutputView {
            exact_costs: Some(costs),
            p_correct: Some(rating(out.costs, costs)),
            ..out
        }
    }
}

/// The result `r` after it was held against the costs of its reference. A
/// result that is not looked at, or that has no reference, stays as it is.
pub open spec fn checked<S, M>(
    r: JobResultView<S, M>,
    reference: Option<Seq<Cost>>,
) -> JobResultView<S, M> {
    if is_checked(r) && reference is Some {
        JobResultView { output: Ok(checked_output(r.output->Ok_0, reference->Some_0)), ..r }
    } else {
        r
    }
}

/// The first `n` of `results` after they were checked in turn. Each result
/// is held against the first reference among the checked results before
/// it, followed by `extra`.
pub open spec fn checked_prefix<S, M>(
    results: Seq<JobResultView<S, M>>,
    extra: Seq<JobResultView<S, M>>,
    n: nat,
) -> Seq<JobResultView<S, M>>
    decreases n,
{
    if n == 0 {
        Seq::empty()
    } else {
        let before = checked_prefix(results, extra, (n - 1) as nat);
        let r = results[n - 1];
        before.push(checked(r, reference_costs(before + extra, r.job)))
    }
}

/// Where the reference of a result stands.
#[derive(Clone, Copy, Debug, PartialEq, Eq, Structural)]
pub enum Place {
    /// Among the checked results, at this position.
    Earlier(usize),
    /// In the first list of other results, at this position.
    First(usize),
    /// In the second list of other results, at this position.
    Second(usize),
}

/// The place of position `k` in a sequence that is made of `earlier`
/// checked results, then a first list of `first` results, then a second.
pub open spec fn place_at(earlier: int, first: int, k: int) -> Place {
    if k < earlier {
        Place::Earlier(k as usize)
    } else if k < earlier + first {
        Place::First((k - earlier) as usize)
    } else {
        Place::Second((k - earlier - first) as usize)
    }
}

/// An exact result that reports other costs than its reference.
#[derive(Clone, Copy, Debug, PartialEq, Eq, Structural)]
pub struct Disagreement {
    /// Position of the result among the checked results.
    pub result: usize,
    /// Where its reference stands.
    pub reference: Place,
}

/// The disagreement of the result at position `n` of `results`, if it
/// disagrees with its reference. The second list of other results starts
/// at position `first` of `extra`.
pub open spec fn disagreement_at<S, M>(
    results: Seq<JobResultView<S, M>>,
    extra: Seq<JobResultView<S, M>>,
    first: int,
    n: int,
) -> Option<Disagreement> {
    let before = checked_prefix(results, extra, n as nat);
    let r = results[n];
    if disagrees(r, reference_costs(before + extra, r.job)) {
        Some(
            Disagreement {
                result: n as usize,
                reference: place_at(n, first, first_reference(before + extra, r.job)->Some_0),
            },
        )
    } else {
        None
    }
}

/// The disagreements among the first `n` of `results`, in their order.
pub open spec fn disagreements<S, M>(
    results: Seq<JobResultView<S, M>>,
    extra: Seq<JobResultView<S, M>>,
    first: int,
    n: nat,
) -> Seq<Disagreement>
    decreases n,
{
    if n == 0 {
        Seq::empty()
    } else {
        let found = disagreements(results, extra, first, (n - 1) as nat);
        match disagreement_at(results, extra, first, n - 1) {
            Some(d) => found.push(d),
            None => found,
        }
    }
}

/// No two positions are both the first of a reference.
pub proof fn lemma_first_reference_unique<S, M>(
    baselines: Seq<JobResultView<S, M>>,
    job: JobView,
    i: int,
    j: int,
)
    requires
        is_first_reference(baselines, job, i),
        is_first_reference(baselines, job, j),
    ensures
        i == j,
{
    if i < j {
        assert(!is_reference_for(baselines[i], job));
    } else if j < i {
        assert(!is_reference_for(baselines[j], job));
    }
}

proof fn lemma_views_push<S, M>(s: Seq<JobResult<S, M>>, x: JobResult<S, M>)
    ensures
        views(s.push(x)) == views(s).push(x@),
{
    assert(views(s.push(x)) =~= views(s).push(x@));
}

/// Moving the exact results to the front keeps every result.
pub proof fn lemma_exact_first_len<S, M>(results: Seq<JobResult<S, M>>)
    ensures
        exact_first(results).len() == results.len(),
    decreases results.len(),
{
    reveal(Seq::filter);
    if results.len() > 0 {
        lemma_exact_first_len(results.drop_last());
    }
}

fn sort_exact_first<S, M>(results: Vec<JobResult<S, M>>) -> (sorted: Vec<JobResult<S, M>>)
    ensures
        sorted@ == exact_first(results@),
{
    let mut front: Vec<JobResult<S, M>> = Vec::new();
    let mut back: Vec<JobResult<S, M>> = Vec::new();
    let ghost all = results@;
    for r in it: results
        invariant
            it.seq() == all,
            front@ == all.take(it.index() as int).filter(exact()),
            back@ == all.take(it.index() as int).filter(inexact()),
    {
        proof {
            let i = it.index() as int;
            lemma_take_push(all, i);
            lemma_filter_push(all.take(i), all[i], exact());
            lemma_filter_push(all.take(i), all[i], inexact());
        }
        if r.is_exact() {
            front.push(r);
        } else {
            back.push(r);
        }
    }
    proof {
        assert(all.take(all.len() as int) == all);
    }
    front.append(&mut back);
    front
}

/// Looks for the first reference for `job` in `list`, whose values are the
/// part of `baselines` that starts at `offset`; none was found before it.
fn find_in<S, M>(
    list: &Vec<JobResult<S, M>>,
    job: &Job,
    Ghost(baselines): Ghost<Seq<JobResultView<S, M>>>,
    Ghost(offset): Ghost<int>,
) -> (found: Option<usize>)
    requires
        0 <= offset,
        offset + list.len() <= baselines.len(),
        baselines.subrange(offset, offset + list.len()) == views(list@),
        forall|j: int| 0 <= j < offset ==> !is_reference_for(#[trigger] baselines[j], job@),
    ensures
        match found {
            Some(i) => i < list.len() && is_first_reference(baselines, job@, offset + i),
            None => forall|j: int|
                0 <= j < offset + list.len() ==> !is_reference_for(#[trigger] baselines[j], job@),
        },
{
    let mut i: usize = 0;
    while i < list.len()
        invariant
            i <= list.len(),
            0 <= offset,
            offset + list.len() <= baselines.len(),
            baselines.subrange(offset, offset + list.len()) == views(list@),
            forall|j: int| 0 <= j < offset + i ==> !is_reference_for(#[trigger] baselines[j], job@),
        decreases list.len() - i,
    {
        let r = &list[i];
        proof {
            assert(baselines.subrange(offset, offset + list.len())[i as int] == baselines[offset
                + i]);
            assert(views(list@)[i as int] == r@);
        }
        if r.job.same_input(job) && r.is_reference() {
            return Some(i);
        }
        i = i + 1;
    }
    None
}

/// Looks for the first reference for `job` among the checked results
/// `done`, then in `extra_1`, then in `extra_2`.
fn find_reference<'a, S, M>(
    done: &'a Vec<JobResult<S, M>>,
    extra_1: &'a Vec<JobResult<S, M>>,
    extra_2: &'a Vec<JobResult<S, M>>,
    job: &Job,
) -> (found: Option<(Place, &'a JobResult<S, M>)>)
    ensures
        ({
            let baselines = views(done@) + (views(extra_1@) + views(extra_2@));
            match first_reference(baselines, job@) {
                Some(k) => found matches Some((place, reference)) && place == place_at(
                    done.len() as int,
                    extra_1.len() as int,
                    k,
                ) && reference@ == baselines[k] && is_first_reference(baselines, job@, k),
                None => found is None,
            }
        }),
{
    let ghost baselines = views(done@) + (views(extra_1@) + views(extra_2@));
    let ghost n0 = done.len() as int;
    let ghost n1 = extra_1.len() as int;
    proof {
        assert(baselines.subrange(0, n0) =~= views(done@));
        assert(baselines.subrange(n0, n0 + n1) =~= views(extra_1@));
        assert(baselines.subrange(n0 + n1, n0 + n1 + extra_2.len()) =~= views(extra_2@));
    }
    if let Some(i) = find_in(done, job, Ghost(baselines), Ghost(0)) {
        proof {
            let k = choose|k: int| is_first_reference(baselines, job@, k);
            lemma_first_reference_unique(baselines, job@, i as int, k);
            assert(baselines[i as int] == views(done@)[i as int]);
        }
        return Some((Place::Earlier(i), &done[i]));
    }
    if let Some(i) = find_in(extra_1, job, Ghost(baselines), Ghost(n0)) {
        proof {
            let k = choose|k: int| is_first_reference(baselines, job@, k);
            lemma_first_reference_unique(baselines, job@, n0 + i, k);
            assert(baselines[n0 + i] == views(extra_1@)[i as int]);
        }
        return Some((Place::First(i), &extra_1[i]));
    }
    if let Some(i) = find_in(extra_2, job, Ghost(baselines), Ghost(n0 + n1)) {
        proof {
            let k = choose|k: int| is_first_reference(baselines, job@, k);
            lemma_first_reference_unique(baselines, job@, n0 + n1 + i, k);
            assert(baselines[n0 + n1 + i] == views(extra_2@)[i as int]);
        }
        return Some((Place::Second(i), &extra_2[i]));
    }
    proof {
        assert(forall|k: int| !is_first_reference(baselines, job@, k));
    }
    None
}

fn costs_equal(a: &Vec<Cost>, b: &Vec<Cost>) -> (r: bool)
    ensures
        r == (a@ == b@),
{
    if a.len() != b.len() {
        return false;
    }
    let mut i: usize = 0;
    while i < a.len()
        invariant
            i <= a.len(),
            a.len() == b.len(),
            forall|j: int| 0 <= j < i ==> a@[j] == b@[j],
        decreases a.len() - i,
    {
        if a[i] != b[i] {
            return false;
        }
        i = i + 1;
    }
    assert(a@ =~= b@);
    true
}

/// Rates `costs` against the exact costs `exact`: how many of the costs
/// are equal to the exact cost at the same position.
pub fn rate(costs: &Vec<Cost>, exact: &Vec<Cost>) -> (r: Fraction)
    ensures
        r == rating(costs@, exact@),
        costs.len() > 0 ==> r.in_unit_interval(),
{
    let n = if costs.len() <= exact.len() {
        costs.len()
    } else {
        exact.len()
    };
    let mut correct: usize = 0;
    let mut i: usize = 0;
    while i < n
        invariant
            i <= n,
            n <= costs.len(),
            n <= exact.len(),
            correct == agreeing_upto(costs@, exact@, i as nat),
            correct <= i,
        decreases n - i,
    {
        if costs[i] == exact[i] {
            correct = correct + 1;
        }
        i = i + 1;
    }
    Fraction { correct, total: costs.len() }
}

/// Holds the output `out` against the costs `exact` of its reference, and
/// says whether it is an exact output that disagrees.
fn check_output<M>(out: JobOutput<M>, exact: &Vec<Cost>) -> (r: (JobOutput<M>, bool))
    ensures
        r.0@ == checked_output(out@, exact@),
        r.1 == (out.is_exact && out.costs@ != exact@),
{
    if out.is_exact {
        if costs_equal(&out.costs, exact) {
            (
                JobOutput {
                    costs: Vec::new(),
                    exact_costs: out.exact_costs,
                    is_exact: out.is_exact,
                    p_correct: out.p_correct,
                    measured: out.measured,
                },
                false,
            )
        } else {
            (out, true)
        }
    } else {
        let p = rate(&out.costs, exact);
        (
            JobOutput {
                costs: out.costs,
                exact_costs: Some(copy_costs(exact)),
                is_exact: out.is_exact,
                p_correct: Some(p),
                measured: out.measured,
            },
            false,
        )
    }
}

/// Holds the result `r` against its reference among the checked results
/// `done`, then `extra_1`, then `extra_2`. Where `r` disagrees with its
/// reference, the place of the reference is given too.
fn check_one<S, M>(
    r: JobResult<S, M>,
    done: &Vec<JobResult<S, M>>,
    extra_1: &Vec<JobResult<S, M>>,
    extra_2: &Vec<JobResult<S, M>>,
) -> (res: (JobResult<S, M>, Option<Place>))
    ensures
        ({
            let baselines = views(done@) + (views(extra_1@) + views(extra_2@));
            let reference = reference_costs(baselines, r@.job);
            &&& res.0@ == checked(r@, reference)
            &&& res.1 == if disagrees(r@, reference) {
                Some(
                    place_at(
                        done.len() as int,
                        extra_1.len() as int,
                        first_reference(baselines, r@.job)->Some_0,
                    ),
                )
            } else {
                None
            }
        }),
{
    let JobResult { job, stats, resources, output } = r;
    match output {
        Err(e) => (JobResult { job, stats, resources, output: Err(e) }, None),
        Ok(out) => {
            if out.costs.len() == 0 {
                return (JobResult { job, stats, resources, output: Ok(out) }, None);
            }
            match find_reference(done, extra_1, extra_2, &job) {
                None => (JobResult { job, stats, resources, output: Ok(out) }, None),
                Some((place, reference)) => match &reference.output {
                    Err(_) => (JobResult { job, stats, resources, output: Ok(out) }, None),
                    Ok(reference_out) => {
                        let (out, disagrees) = check_output(out, &reference_out.costs);
                        (
                            JobResult { job, stats, resources, output: Ok(out) },
                            if disagrees {
                                Some(place)
                            } else {
                                None
                            },
                        )
                    },
                },
            }
        },
    }
}

/// Checks the costs of `results` and says where exact results disagree.
///
/// The exact results are moved to the front. Then each result that
/// succeeded and holds costs is held against its reference: the first
/// exact result with costs and the same input among the results before it,
/// then in `extra_1`, then in `extra_2`. An exact result that agrees with
/// its reference gives up its costs; one that disagrees is listed. A result
/// that is not exact takes the costs of the reference as its exact costs
/// and the share of its costs that agree.
pub fn check_costs<S, M>(
    results: &mut Vec<JobResult<S, M>>,
    extra_1: &Vec<JobResult<S, M>>,
    extra_2: &Vec<JobResult<S, M>>,
) -> (found: Vec<Disagreement>)
    ensures
        final(results).len() == old(results).len(),
        views(final(results)@) == checked_prefix(
            views(exact_first(old(results)@)),
            views(extra_1@) + views(extra_2@),
            old(results).len() as nat,
        ),
        found@ == disagreements(
            views(exact_first(old(results)@)),
            views(extra_1@) + views(extra_2@),
            extra_1.len() as int,
            old(results).len() as nat,
        ),
        (forall|i: int| 0 <= i < old(results).len() ==> (#[trigger] old(results)@[i])@.wf())
            ==> forall|i: int|
            0 <= i < final(results).len() ==> (#[trigger] final(results)@[i])@.wf()
                && share_in_unit_interval(final(results)@[i]@),
        found.len() == 0 ==> forall|a: int, b: int|
            0 <= a < old(results).len() && 0 <= b < old(results).len() && comparable(
                (#[trigger] old(results)@[a])@,
                (#[trigger] old(results)@[b])@,
            ) ==> old(results)@[a]@.output->Ok_0.costs == old(results)@[b]@.output->Ok_0.costs,
{
    proof {
        lemma_check_is_sound(
            old(results)@,
            views(extra_1@) + views(extra_2@),
            extra_1.len() as int,
        );
    }
    let mut taken: Vec<JobResult<S, M>> = Vec::new();
    std::mem::swap(results, &mut taken);
    let ghost given = taken@;
    let sorted = sort_exact_first(taken);
    let ghost order = sorted@;
    let ghost sv = views(order);
    let ghost extra = views(extra_1@) + views(extra_2@);
    proof {
        lemma_exact_first_len(given);
    }
    let mut done: Vec<JobResult<S, M>> = Vec::new();
    let mut found: Vec<Disagreement> = Vec::new();
    for r in it: sorted
        invariant
            it.seq() == order,
            sv == views(order),
            extra == views(extra_1@) + views(extra_2@),
            done.len() == it.index(),
            views(done@) == checked_prefix(sv, extra, it.index() as nat),
            found@ == disagreements(sv, extra, extra_1.len() as int, it.index() as nat),
    {
        let ghost n = it.index() as int;
        proof {
            assert(sv[n] == r@);
        }
        let (checked_result, place) = check_one(r, &done, extra_1, extra_2);
        if let Some(reference) = place {
            found.push(Disagreement { result: done.len(), reference });
        }
        proof {
            lemma_views_push(done@, checked_result);
        }
        done.push(checked_result);
    }
    proof {
        assert forall|i: int| 0 <= i < done.len() implies views(done@)[i] == (
        #[trigger] done@[i])@ by {}
    }
    *results = done;
    found
}

/// Checks the costs of `results` as [`check_costs`] does, and says whether
/// all exact results agree with their references.
pub fn verify_costs<S, M>(
    results: &mut Vec<JobResult<S, M>>,
    extra_1: &Vec<JobResult<S, M>>,
    extra_2: &Vec<JobResult<S, M>>,
) -> (ok: bool)
    ensures
        final(results).len() == old(results).len(),
        views(final(results)@) == checked_prefix(
            views(exact_first(old(results)@)),
            views(extra_1@) + views(extra_2@),
            old(results).len() as nat,
        ),
        ok == (disagreements(
            views(exact_first(old(results)@)),
            views(extra_1@) + views(extra_2@),
            extra_1.len() as int,
            old(results).len() as nat,
        ).len() == 0),
        (forall|i: int| 0 <= i < old(results).len() ==> (#[trigger] old(results)@[i])@.wf())
            ==> forall|i: int|
            0 <= i < final(results).len() ==> (#[trigger] final(results)@[i])@.wf()
                && share_in_unit_interval(final(results)@[i]@),
        ok ==> forall|a: int, b: int|
            0 <= a < old(results).len() && 0 <= b < old(results).len() && comparable(
                (#[trigger] old(results)@[a])@,
                (#[trigger] old(results)@[b])@,
            ) ==> old(results)@[a]@.output->Ok_0.costs == old(results)@[b]@.output->Ok_0.costs,
{
    let found = check_costs(results, extra_1, extra_2);
    found.len() == 0
}

} // verus!
