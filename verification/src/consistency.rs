//! What the check of costs guarantees.
//!
//! Two facts are proved here of [`check_costs`](crate::verify::check_costs)
//! and [`verify_costs`](crate::verify::verify_costs). A check keeps every
//! output well formed, so that a share of correct costs is a number from 0
//! to 1 wherever one is present. And a check that finds no disagreement
//! shows that all exact results with the same input report the same costs.

use vstd::prelude::*;
use crate::cost::Cost;
use crate::job::JobView;
use crate::result::{lemma_agreeing_bound, views, JobOutputView, JobResult, JobResultView};
use crate::seqs::{kept_positions, lemma_kept_positions};
use crate::verify::{
    checked,
    checked_prefix,
    disagreement_at,
    disagreements,
    disagrees,
    exact,
    exact_first,
    first_reference,
    inexact,
    comparable,
    is_checked,
    is_first_reference,
    is_reference_for,
    lemma_first_reference_unique,
    rating,
    reference_costs,
    share_in_unit_interval,
};

verus! {

/// The share of agreeing costs is a number from 0 to 1 when there is a
/// cost at all.
pub proof fn lemma_rating_in_unit_interval(costs: Seq<Cost>, exact: Seq<Cost>)
    requires
        0 < costs.len() <= usize::MAX,
    ensures
        rating(costs, exact).in_unit_interval(),
        rating(costs, exact).correct == crate::result::agreeing(costs, exact),
{
    let n: nat = if costs.len() <= exact.len() {
        costs.len()
    } else {
        exact.len()
    };
    lemma_agreeing_bound(costs, exact, n);
}

/// In a well-formed output the share of correct costs, where it is
/// present, is a number from 0 to 1.
pub proof fn lemma_share_in_unit_interval<M>(out: JobOutputView<M>)
    requires
        out.wf(),
        out.costs.len() <= usize::MAX,
    ensures
        out.p_correct matches Some(share) ==> share.in_unit_interval(),
{
    if out.p_correct is Some {
        lemma_rating_in_unit_interval(out.costs, out.exact_costs->Some_0);
    }
}

/// Holding a well-formed result against a reference leaves it well formed.
pub proof fn lemma_checked_keeps_wf<S, M>(r: JobResultView<S, M>, reference: Option<Seq<Cost>>)
    requires
        r.wf(),
    ensures
        checked(r, reference).wf(),
{
}

/// The checked results are as many as were checked, and checking more
/// results does not change the ones before.
pub proof fn lemma_checked_prefix_extends<S, M>(
    results: Seq<JobResultView<S, M>>,
    extra: Seq<JobResultView<S, M>>,
    n: nat,
    m: nat,
)
    requires
        n <= m,
    ensures
        checked_prefix(results, extra, n).len() == n,
        checked_prefix(results, extra, m).len() == m,
        checked_prefix(results, extra, m).take(n as int) == checked_prefix(results, extra, n),
    decreases m,
{
    if m == 0 {
        assert(checked_prefix(results, extra, m).take(0) =~= checked_prefix(results, extra, 0));
    } else if n == m {
        lemma_checked_prefix_extends(results, extra, (m - 1) as nat, (m - 1) as nat);
        assert(checked_prefix(results, extra, m).take(m as int) =~= checked_prefix(
            results,
            extra,
            m,
        ));
    } else {
        lemma_checked_prefix_extends(results, extra, n, (m - 1) as nat);
        assert(checked_prefix(results, extra, m).take(n as int) =~= checked_prefix(
            results,
            extra,
            (m - 1) as nat,
        ).take(n as int));
    }
}

/// Each checked result is the result at its position, held against the
/// first reference before it.
pub proof fn lemma_checked_prefix_at<S, M>(
    results: Seq<JobResultView<S, M>>,
    extra: Seq<JobResultView<S, M>>,
    n: nat,
    i: int,
)
    requires
        0 <= i < n,
    ensures
        checked_prefix(results, extra, n)[i] == checked(
            results[i],
            reference_costs(checked_prefix(results, extra, i as nat) + extra, results[i].job),
        ),
{
    lemma_checked_prefix_extends(results, extra, (i + 1) as nat, n);
    assert(checked_prefix(results, extra, n)[i] == checked_prefix(results, extra, n).take(
        i + 1,
    )[i]);
}

/// A check keeps well-formed results well formed.
pub proof fn lemma_check_keeps_wf<S, M>(
    results: Seq<JobResultView<S, M>>,
    extra: Seq<JobResultView<S, M>>,
    n: nat,
)
    requires
        n <= results.len(),
        forall|i: int| 0 <= i < n ==> (#[trigger] results[i]).wf(),
    ensures
        forall|i: int| 0 <= i < n ==> (#[trigger] checked_prefix(results, extra, n)[i]).wf(),
{
    assert forall|i: int| 0 <= i < n implies (#[trigger] checked_prefix(
        results,
        extra,
        n,
    )[i]).wf() by {
        lemma_checked_prefix_at(results, extra, n, i);
    }
}

/// Where a check finds no disagreement, no result disagrees with its
/// reference.
pub proof fn lemma_no_disagreement_at<S, M>(
    results: Seq<JobResultView<S, M>>,
    extra: Seq<JobResultView<S, M>>,
    first: int,
    n: nat,
    i: int,
)
    requires
        disagreements(results, extra, first, n).len() == 0,
        0 <= i < n,
    ensures
        disagreement_at(results, extra, first, i) is None,
        !disagrees(
            results[i],
            reference_costs(checked_prefix(results, extra, i as nat) + extra, results[i].job),
        ),
    decreases n,
{
    if i < n - 1 {
        lemma_no_disagreement_at(results, extra, first, (n - 1) as nat, i);
    }
}

/// Jobs with the same input have the same references.
pub proof fn lemma_same_input_same_reference<S, M>(
    baselines: Seq<JobResultView<S, M>>,
    a: JobView,
    b: JobView,
)
    requires
        a.same_input(b),
    ensures
        first_reference(baselines, a) == first_reference(baselines, b),
        reference_costs(baselines, a) == reference_costs(baselines, b),
{
    assert forall|i: int| is_first_reference(baselines, a, i) == is_first_reference(
        baselines,
        b,
        i,
    ) by {
        assert forall|j: int| 0 <= j < baselines.len() implies is_reference_for(baselines[j], a)
            == is_reference_for(baselines[j], b) by {}
        if is_first_reference(baselines, a, i) {
            assert(is_first_reference(baselines, b, i));
        }
        if is_first_reference(baselines, b, i) {
            assert(is_first_reference(baselines, a, i));
        }
    }
    if exists|i: int| is_first_reference(baselines, a, i) {
        let i = choose|i: int| is_first_reference(baselines, a, i);
        assert(is_first_reference(baselines, b, i));
        let j = choose|j: int| is_first_reference(baselines, b, j);
        lemma_first_reference_unique(baselines, b, i, j);
    } else {
        assert forall|j: int| !is_first_reference(baselines, b, j) by {
            assert(!is_first_reference(baselines, a, j));
        }
    }
}

/// Where some result is a reference, one is the first.
proof fn lemma_has_first_reference<S, M>(baselines: Seq<JobResultView<S, M>>, job: JobView, i: int)
    requires
        0 <= i < baselines.len(),
        is_reference_for(baselines[i], job),
    ensures
        exists|k: int| 0 <= k <= i && is_first_reference(baselines, job, k),
    decreases i,
{
    if exists|j: int| 0 <= j < i && is_reference_for(#[trigger] baselines[j], job) {
        let j = choose|j: int| 0 <= j < i && is_reference_for(#[trigger] baselines[j], job);
        lemma_has_first_reference(baselines, job, j);
    } else {
        assert(is_first_reference(baselines, job, i));
    }
}

/// The first reference at position `k` of `baselines` is its first
/// reference, and its costs are the reference costs.
proof fn lemma_first_reference_is<S, M>(baselines: Seq<JobResultView<S, M>>, job: JobView, k: int)
    requires
        is_first_reference(baselines, job, k),
    ensures
        first_reference(baselines, job) == Some(k),
        reference_costs(baselines, job) == Some(baselines[k].output->Ok_0.costs),
{
    let c = choose|i: int| is_first_reference(baselines, job, i);
    lemma_first_reference_unique(baselines, job, k, c);
}

/// One more checked result that is no reference for `job` does not change
/// the costs of the reference for `job`.
proof fn lemma_reference_after_other<S, M>(
    before: Seq<JobResultView<S, M>>,
    extra: Seq<JobResultView<S, M>>,
    next: JobResultView<S, M>,
    job: JobView,
)
    requires
        !is_reference_for(next, job),
    ensures
        reference_costs(before.push(next) + extra, job) == reference_costs(before + extra, job),
{
    let old_b = before + extra;
    let new_b = before.push(next) + extra;
    let n = before.len() as int;
    assert forall|j: int| 0 <= j < old_b.len() implies old_b[j] == new_b[if j < n {
        j
    } else {
        j + 1
    }] by {}
    if exists|i: int| is_first_reference(old_b, job, i) {
        let i = choose|i: int| is_first_reference(old_b, job, i);
        let k = if i < n {
            i
        } else {
            i + 1
        };
        assert forall|j: int| 0 <= j < k implies !is_reference_for(#[trigger] new_b[j], job) by {
            if j < n {
                assert(new_b[j] == old_b[j]);
            } else if j > n {
                assert(new_b[j] == old_b[j - 1]);
            }
        }
        assert(is_first_reference(new_b, job, k));
        lemma_first_reference_is(new_b, job, k);
        lemma_first_reference_is(old_b, job, i);
    } else {
        assert forall|k: int| !is_first_reference(new_b, job, k) by {
            if is_first_reference(new_b, job, k) {
                let i = if k < n {
                    k
                } else {
                    k - 1
                };
                assert(k != n);
                assert(old_b[i] == new_b[k]);
                lemma_has_first_reference(old_b, job, i);
            }
        }
    }
}

/// Once a reference for `job` is found, every later result for the same
/// input is held against the same costs, as long as none disagrees.
proof fn lemma_reference_is_stable<S, M>(
    results: Seq<JobResultView<S, M>>,
    extra: Seq<JobResultView<S, M>>,
    first: int,
    total: nat,
    job: JobView,
    n: nat,
    m: nat,
)
    requires
        disagreements(results, extra, first, total).len() == 0,
        n <= m <= total <= results.len(),
        reference_costs(checked_prefix(results, extra, n) + extra, job) is Some,
    ensures
        reference_costs(checked_prefix(results, extra, m) + extra, job) == reference_costs(
            checked_prefix(results, extra, n) + extra,
            job,
        ),
    decreases m,
{
    if n < m {
        let k = (m - 1) as nat;
        lemma_reference_is_stable(results, extra, first, total, job, n, k);
        let before = checked_prefix(results, extra, k);
        let r = results[k as int];
        let found = reference_costs(before + extra, r.job);
        let next = checked(r, found);
        if is_reference_for(next, job) {
            // Then `r` is exact, holds costs and has the input of `job`, so
            // it was held against the reference of `job` and agreed.
            lemma_same_input_same_reference(before + extra, r.job, job);
            lemma_no_disagreement_at(results, extra, first, total, k as int);
            assert(false);
        }
        lemma_reference_after_other(before, extra, next, job);
    }
}

/// Where a check finds no disagreement, any two exact results with the
/// same input that hold costs hold the same costs.
///
/// `results` are the results in the order in which they are checked,
/// `extra` the other results that serve as references, and `first` the
/// number of those that stand in the first list.
pub proof fn lemma_agreement_means_equal_costs<S, M>(
    results: Seq<JobResultView<S, M>>,
    extra: Seq<JobResultView<S, M>>,
    first: int,
    i: int,
    j: int,
)
    requires
        disagreements(results, extra, first, results.len()).len() == 0,
        0 <= i < j < results.len(),
        results[i].is_exact() && is_checked(results[i]),
        results[j].is_exact() && is_checked(results[j]),
        results[i].job.same_input(results[j].job),
    ensures
        results[i].output->Ok_0.costs == results[j].output->Ok_0.costs,
{
    let total = results.len();
    let job = results[j].job;
    let before_i = checked_prefix(results, extra, i as nat);
    let before_j = checked_prefix(results, extra, j as nat);
    lemma_no_disagreement_at(results, extra, first, total, i);
    lemma_no_disagreement_at(results, extra, first, total, j);
    lemma_same_input_same_reference(before_i + extra, results[i].job, job);
    lemma_checked_prefix_extends(results, extra, i as nat, (i + 1) as nat);
    if reference_costs(before_i + extra, job) is Some {
        lemma_reference_is_stable(results, extra, first, total, job, i as nat, j as nat);
    } else {
        // No reference yet: the result at `i` stays as it is and is the
        // first reference from then on.
        let after_i = checked_prefix(results, extra, (i + 1) as nat);
        assert(after_i == before_i.push(results[i]));
        assert forall|k: int| 0 <= k < i implies !is_reference_for(
            #[trigger] (after_i + extra)[k],
            job,
        ) by {
            if is_reference_for((after_i + extra)[k], job) {
                assert((before_i + extra)[k] == (after_i + extra)[k]);
                lemma_has_first_reference(before_i + extra, job, k);
            }
        }
        assert((after_i + extra)[i] == results[i]);
        assert(is_first_reference(after_i + extra, job, i));
        lemma_first_reference_is(after_i + extra, job, i);
        lemma_reference_is_stable(results, extra, first, total, job, (i + 1) as nat, j as nat);
    }
}

/// Moving the exact results to the front brings every exact result to a
/// position of its own among them, and leaves out none and adds none.
pub proof fn lemma_exact_first_is_rearrangement<S, M>(results: Seq<JobResult<S, M>>)
    ensures
        exact_first(results).len() == results.len(),
        forall|i: int|
            0 <= i < results.len() ==> exists|a: int|
                0 <= a < results.len() && results[a] == #[trigger] exact_first(results)[i],
        forall|a: int|
            0 <= a < results.len() && (#[trigger] results[a])@.is_exact() ==> 0 <= exact_position(
                results,
                a,
            ) < results.filter(exact()).len() && exact_first(results)[exact_position(results, a)]
                == results[a],
        forall|a: int, b: int|
            0 <= a < b < results.len() && (#[trigger] results[a])@.is_exact()
                && (#[trigger] results[b])@.is_exact() ==> exact_position(results, a)
                < exact_position(results, b),
{
    lemma_kept_positions(results, exact());
    lemma_kept_positions(results, inexact());
    crate::verify::lemma_exact_first_len(results);
    let front = results.filter(exact());
    let back = results.filter(inexact());
    let at = kept_positions(results, exact());
    assert forall|i: int| 0 <= i < results.len() implies exists|a: int|
        0 <= a < results.len() && results[a] == #[trigger] exact_first(results)[i] by {
        if i < front.len() {
            assert(results[at[i]] == front[i]);
        } else {
            let k = i - front.len();
            assert(results[kept_positions(results, inexact())[k]] == back[k]);
        }
    }
    assert forall|a: int| 0 <= a < results.len() && (#[trigger] results[a])@.is_exact() implies 0
        <= exact_position(results, a) < front.len() && exact_first(results)[exact_position(
        results,
        a,
    )] == results[a] by {
        let i = choose|i: int| 0 <= i < front.len() && #[trigger] at[i] == a;
        let p = exact_position(results, a);
        assert(0 <= p < front.len() && at[p] == a);
    }
    assert forall|a: int, b: int|
        0 <= a < b < results.len() && (#[trigger] results[a])@.is_exact()
            && (#[trigger] results[b])@.is_exact() implies exact_position(results, a)
        < exact_position(results, b) by {
        let p = exact_position(results, a);
        let q = exact_position(results, b);
        assert(at[p] == a && at[q] == b);
        if q < p {
            assert(at[q] < at[p]);
        }
    }
}

/// The position to which the exact result at position `a` of `results`
/// moves when the exact results are moved to the front.
pub open spec fn exact_position<S, M>(results: Seq<JobResult<S, M>>, a: int) -> int {
    choose|i: int|
        0 <= i < results.filter(exact()).len() && #[trigger] kept_positions(results, exact())[i]
            == a
}

/// Two exact results with the same input that hold different costs are
/// found by the check, wherever they stand among the results: the check
/// then lists at least one disagreement.
pub proof fn lemma_unequal_costs_are_found<S, M>(
    results: Seq<JobResult<S, M>>,
    extra: Seq<JobResultView<S, M>>,
    first: int,
    a: int,
    b: int,
)
    requires
        0 <= a < results.len(),
        0 <= b < results.len(),
        results[a]@.is_exact() && is_checked(results[a]@),
        results[b]@.is_exact() && is_checked(results[b]@),
        results[a]@.job.same_input(results[b]@.job),
        results[a]@.output->Ok_0.costs != results[b]@.output->Ok_0.costs,
    ensures
        disagreements(views(exact_first(results)), extra, first, results.len()).len() > 0,
{
    let sorted = views(exact_first(results));
    lemma_exact_first_is_rearrangement(results);
    let p = exact_position(results, a);
    let q = exact_position(results, b);
    assert(sorted[p] == results[a]@);
    assert(sorted[q] == results[b]@);
    if disagreements(sorted, extra, first, results.len()).len() == 0 {
        if a < b {
            lemma_agreement_means_equal_costs(sorted, extra, first, p, q);
        } else if b < a {
            lemma_agreement_means_equal_costs(sorted, extra, first, q, p);
        }
    }
}

/// A check of well-formed results gives well-formed results, in which
/// every share of correct costs is a number from 0 to 1.
pub proof fn lemma_check_gives_wf<S, M>(
    results: Seq<JobResult<S, M>>,
    extra: Seq<JobResultView<S, M>>,
)
    requires
        forall|i: int| 0 <= i < results.len() ==> (#[trigger] results[i])@.wf(),
    ensures
        forall|i: int|
            0 <= i < results.len() ==> {
                let r = #[trigger] checked_prefix(
                    views(exact_first(results)),
                    extra,
                    results.len(),
                )[i];
                r.wf() && share_in_unit_interval(r)
            },
{
    let sorted = views(exact_first(results));
    lemma_exact_first_is_rearrangement(results);
    assert forall|i: int| 0 <= i < results.len() implies (#[trigger] sorted[i]).wf() && (
    sorted[i].output is Ok ==> sorted[i].output->Ok_0.costs.len() <= usize::MAX) by {
        let a = choose|a: int| 0 <= a < results.len() && results[a] == exact_first(results)[i];
        assert(sorted[i] == results[a]@);
        if results[a].output is Ok {
            assert(results[a]@.output->Ok_0.costs == results[a].output->Ok_0.costs@);
            assert(results[a].output->Ok_0.costs@.len() == results[a].output->Ok_0.costs.len());
        }
    }
    lemma_check_keeps_wf(sorted, extra, results.len());
    assert forall|i: int| 0 <= i < results.len() implies share_in_unit_interval(
        #[trigger] checked_prefix(sorted, extra, results.len())[i],
    ) by {
        lemma_checked_prefix_at(sorted, extra, results.len(), i);
        let r = checked_prefix(sorted, extra, results.len())[i];
        if r.output is Ok {
            lemma_share_in_unit_interval(r.output->Ok_0);
        }
    }
}

/// What a check of `results` against `extra` shows: well-formed results
/// stay well formed with every share of correct costs a number from 0 to
/// 1, and where no disagreement is found, any two exact results with the
/// same input hold the same costs, unless one of them holds costs and the
/// other has given them up.
pub proof fn lemma_check_is_sound<S, M>(
    results: Seq<JobResult<S, M>>,
    extra: Seq<JobResultView<S, M>>,
    first: int,
)
    ensures
        (forall|i: int| 0 <= i < results.len() ==> (#[trigger] results[i])@.wf()) ==> forall|
            i: int,
        |
            0 <= i < results.len() ==> {
                let r = #[trigger] checked_prefix(
                    views(exact_first(results)),
                    extra,
                    results.len(),
                )[i];
                r.wf() && share_in_unit_interval(r)
            },
        disagreements(views(exact_first(results)), extra, first, results.len()).len() == 0
            ==> forall|a: int, b: int|
            0 <= a < results.len() && 0 <= b < results.len() && comparable(
                (#[trigger] results[a])@,
                (#[trigger] results[b])@,
            ) ==> results[a]@.output->Ok_0.costs == results[b]@.output->Ok_0.costs,
{
    if forall|i: int| 0 <= i < results.len() ==> (#[trigger] results[i])@.wf() {
        lemma_check_gives_wf(results, extra);
    }
    if disagreements(views(exact_first(results)), extra, first, results.len()).len() == 0 {
        assert forall|a: int, b: int|
            0 <= a < results.len() && 0 <= b < results.len() && comparable(
                (#[trigger] results[a])@,
                (#[trigger] results[b])@,
            ) implies results[a]@.output->Ok_0.costs == results[b]@.output->Ok_0.costs by {
            let mine = results[a]@.output->Ok_0.costs;
            let theirs = results[b]@.output->Ok_0.costs;
            if !is_checked(results[a]@) {
                assert(mine =~= theirs);
            } else if mine != theirs {
                lemma_unequal_costs_are_found(results, extra, first, a, b);
            }
        }
    }
}

} // verus!
