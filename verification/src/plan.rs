//! What is settled before the first job runs: the settings of the run and
//! the processor cores that the workers and the scheduler itself get.

use vstd::prelude::*;

verus! {

/// The niceness of a release run when none is given: the highest priority.
pub const RELEASE_NICE: i32 = -20;

/// The niceness and the number of workers of a run.
///
/// A release run has one worker, and the highest priority unless a
/// niceness is given. Any other run has the niceness and the number of
/// workers that were asked for.
pub fn release_settings(release: bool, nice: Option<i32>, num_jobs: usize) -> (r: (
    Option<i32>,
    usize,
))
    ensures
        release ==> r.1 == 1 && r.0 == Some(
            match nice {
                Some(n) => n,
                None => RELEASE_NICE,
            },
        ),
        !release ==> r == (nice, num_jobs),
{
    if release {
        match nice {
            Some(n) => (Some(n), 1),
            None => (Some(RELEASE_NICE), 1),
        }
    } else {
        (nice, num_jobs)
    }
}

/// Whether a path for the results may be given: only with one experiment.
pub fn output_is_allowed(output_given: bool, experiments: usize) -> (ok: bool)
    ensures
        ok == (!output_given || experiments == 1),
{
    !output_given || experiments == 1
}

/// The cores of a run: one for the scheduler and the others for runners.
#[derive(Clone, Debug)]
pub struct CorePlan {
    /// The core on which the scheduler itself runs.
    pub orchestrator: usize,
    /// The cores on which runners run, one runner each.
    pub runners: Vec<usize>,
}

/// How many of `available` cores a run with `num_jobs` workers takes: one
/// more than it has workers, if there are as many.
pub open spec fn cores_taken(available: nat, num_jobs: usize) -> nat {
    if available <= num_jobs {
        available
    } else {
        (num_jobs + 1) as nat
    }
}

/// The plan for a run with `num_jobs` workers on the cores `ids`: the
/// first core is for the scheduler, and the cores after it are for the
/// runners, as many as there are workers and cores.
pub open spec fn core_plan(ids: Seq<usize>, num_jobs: usize) -> Option<(usize, Seq<usize>)> {
    if ids.len() == 0 {
        None
    } else {
        Some((ids[0], ids.subrange(1, cores_taken(ids.len(), num_jobs) as int)))
    }
}

/// The cores are named in rising order, so that none is named twice.
pub open spec fn rising(ids: Seq<usize>) -> bool {
    forall|i: int, j: int| 0 <= i < j < ids.len() ==> ids[i] < ids[j]
}

impl CorePlan {
    /// The scheduler has a core to itself: no runner runs on it.
    pub open spec fn keeps_apart(&self) -> bool {
        forall|i: int| 0 <= i < self.runners.len() ==> self.runners[i] != self.orchestrator
    }
}

/// Gives out the cores `ids` to a run with `num_jobs` workers. There is no
/// plan without a core. Where no core is named twice, the scheduler has a
/// core to itself.
pub fn reserve_cores(ids: &Vec<usize>, num_jobs: usize) -> (plan: Option<CorePlan>)
    ensures
        match core_plan(ids@, num_jobs) {
            Some((orchestrator, runners)) => plan matches Some(p) && p.orchestrator == orchestrator
                && p.runners@ == runners,
            None => plan is None,
        },
        plan matches Some(p) ==> p.runners.len() <= num_jobs && p.runners.len() < ids.len(),
        plan matches Some(p) ==> rising(ids@) ==> p.keeps_apart(),
{
    if ids.len() == 0 {
        return None;
    }
    let end = if ids.len() <= num_jobs {
        ids.len()
    } else {
        num_jobs + 1
    };
    let mut runners: Vec<usize> = Vec::new();
    let mut i: usize = 1;
    while i < end
        invariant
            1 <= i <= end <= ids.len(),
            runners@ == ids@.subrange(1, i as int),
        decreases end - i,
    {
        runners.push(ids[i]);
        assert(ids@.subrange(1, i + 1) =~= ids@.subrange(1, i as int).push(ids@[i as int]));
        i = i + 1;
    }
    Some(CorePlan { orchestrator: ids[0], runners })
}

/// The cores on which this thread may run, as `core_affinity::get_core_ids`
/// gives them. Which cores they are depends on the machine and on how the
/// process was started. What is claimed is that they come in rising order:
/// on every system the crate goes through the numbers of the cores from
/// the smallest on and takes those on which the thread may run.
#[verifier::external_body]
fn allowed_cores() -> (ids: Option<Vec<usize>>)
    ensures
        ids matches Some(ids) ==> rising(ids@),
{
    core_affinity::get_core_ids().map(|ids| ids.into_iter().map(|core| core.id).collect())
}

/// Plans a run with `num_jobs` workers on the cores of this machine.
///
/// The plan is the plan for the cores on which this thread may run: the
/// first of them is for the scheduler, and those after it are for the
/// runners, as many as there are workers and cores. Which cores those are
/// is for the machine to say. Whichever they are, the runners get no more
/// cores than there are workers, and the scheduler has a core to itself.
/// There is no plan if the cores cannot be had or there is none.
pub fn plan_cores(num_jobs: usize) -> (plan: Option<CorePlan>)
    ensures
        plan matches Some(p) ==> p.runners.len() <= num_jobs && p.keeps_apart(),
        plan matches Some(p) ==> exists|ids: Seq<usize>|
            rising(ids) && #[trigger] core_plan(ids, num_jobs) == Some(
                (p.orchestrator, p.runners@),
            ),
{
    match allowed_cores() {
        Some(ids) => {
            let plan = reserve_cores(&ids, num_jobs);
            proof {
                if plan is Some {
                    let p = plan->Some_0;
                    assert(rising(ids@) && core_plan(ids@, num_jobs) == Some(
                        (p.orchestrator, p.runners@),
                    ));
                }
            }
            plan
        },
        None => None,
    }
}

/// The workers of a run, each with the core to which its runners are
/// pinned. With pinning there is one worker for each core. Without it
/// there is a single worker, which is not pinned.
pub fn workers(runners: &Vec<usize>, no_pin: bool) -> (w: Vec<Option<usize>>)
    ensures
        no_pin ==> w@ == seq![None::<usize>],
        !no_pin ==> w@ == runners@.map_values(|core: usize| Some(core)),
{
    let mut w: Vec<Option<usize>> = Vec::new();
    if no_pin {
        w.push(None);
        assert(w@ =~= seq![None::<usize>]);
        return w;
    }
    let mut i: usize = 0;
    while i < runners.len()
        invariant
            i <= runners.len(),
            w@ == runners@.take(i as int).map_values(|core: usize| Some(core)),
        decreases runners.len() - i,
    {
        w.push(Some(runners[i]));
        assert(runners@.take(i + 1).map_values(|core: usize| Some(core)) =~= runners@.take(
            i as int,
        ).map_values(|core: usize| Some(core)).push(Some(runners@[i as int])));
        i = i + 1;
    }
    assert(runners@.take(runners.len() as int) == runners@);
    w
}

} // verus!
