use pa_bench::algorithms::{AlgorithmParams, EdlibParams, TripleAccelParams};
use pa_bench::cache::{jobs_to_run, merge, partition, reuse_filter, with_extra};
use pa_bench::cost::CostModel;
use pa_bench::dataset::Dataset;
use pa_bench::job::Job;
use pa_bench::result::{JobError, JobOutput, JobResult, ResourceUsage};

fn job(file: &str, time_limit: u64, mem_limit: u64) -> Job {
    Job {
        time_limit,
        mem_limit,
        dataset: Dataset::File(String::from(file)),
        costs: CostModel::unit(),
        traceback: true,
        algo: AlgorithmParams::Edlib(EdlibParams),
    }
}

fn succeeded(job: Job, tag: u32) -> JobResult<u32, ()> {
    JobResult {
        job,
        stats: tag,
        resources: ResourceUsage { walltime: 1, usertime: 1, systemtime: 0, maxrss: 10 },
        output: Ok(JobOutput {
            costs: vec![1],
            exact_costs: None,
            is_exact: true,
            p_correct: None,
            measured: (),
        }),
    }
}

fn failed(job: Job, tag: u32) -> JobResult<u32, ()> {
    JobResult { job, stats: tag, resources: ResourceUsage::zero(), output: Err(JobError::Timeout) }
}

fn tags(results: &Vec<JobResult<u32, ()>>) -> Vec<u32> {
    results.iter().map(|r| r.stats).collect()
}

fn files(jobs: &Vec<(Job, u8)>) -> Vec<u8> {
    jobs.iter().map(|j| j.1).collect()
}

#[test]
fn partition_splits_by_identity() {
    let cache = vec![
        succeeded(job("a.seq", 1, 1), 1),
        succeeded(job("x.seq", 1, 1), 2),
        failed(job("b.seq", 100, 100), 3),
        failed(job("y.seq", 100, 100), 4),
    ];
    let jobs = vec![(job("b.seq", 5, 5), 0u8), (job("a.seq", 5, 5), 1u8)];
    let (in_set, extra) = partition(cache, &jobs);
    assert_eq!(tags(&in_set), vec![1, 3]);
    assert_eq!(tags(&extra), vec![2, 4]);
}

#[test]
fn partition_looks_at_aligner_and_output() {
    let other_algo =
        Job { algo: AlgorithmParams::TripleAccel(TripleAccelParams), ..job("a.seq", 1, 1) };
    let other_trace = Job { traceback: false, ..job("a.seq", 1, 1) };
    let cache = vec![succeeded(other_algo, 1), succeeded(other_trace, 2)];
    let jobs = vec![(job("a.seq", 1, 1), 0u8)];
    let (in_set, extra) = partition(cache, &jobs);
    assert_eq!(tags(&in_set), Vec::<u32>::new());
    assert_eq!(tags(&extra), vec![1, 2]);
}

#[test]
fn success_is_reused_whatever_its_resources() {
    let in_set = vec![succeeded(job("a.seq", 1, 1), 1)];
    let jobs = vec![(job("a.seq", 100, 100), 0u8), (job("b.seq", 100, 100), 1u8)];
    assert_eq!(files(&reuse_filter(&in_set, jobs.clone(), false)), vec![1]);
    assert_eq!(files(&reuse_filter(&in_set, jobs, true)), vec![1]);
}

#[test]
fn failure_is_reused_with_enough_resources() {
    let in_set = vec![failed(job("a.seq", 10, 10), 1)];
    let equal = vec![(job("a.seq", 10, 10), 0u8)];
    let less = vec![(job("a.seq", 5, 10), 0u8)];
    assert_eq!(files(&reuse_filter(&in_set, equal, false)), Vec::<u8>::new());
    assert_eq!(files(&reuse_filter(&in_set, less, false)), Vec::<u8>::new());
}

#[test]
fn failure_with_smaller_limits_forces_rerun() {
    let in_set = vec![failed(job("a.seq", 10, 10), 1)];
    let more_time = vec![(job("a.seq", 11, 10), 0u8)];
    let more_memory = vec![(job("a.seq", 10, 11), 0u8)];
    let more_memory_less_time = vec![(job("a.seq", 1, 11), 0u8)];
    assert_eq!(files(&reuse_filter(&in_set, more_time, false)), vec![0]);
    assert_eq!(files(&reuse_filter(&in_set, more_memory, false)), vec![0]);
    assert_eq!(files(&reuse_filter(&in_set, more_memory_less_time, false)), vec![0]);
}

#[test]
fn failures_are_rerun_on_demand() {
    let in_set = vec![failed(job("a.seq", 10, 10), 1), succeeded(job("b.seq", 10, 10), 2)];
    let jobs = vec![(job("a.seq", 10, 10), 0u8), (job("b.seq", 10, 10), 1u8)];
    assert_eq!(files(&reuse_filter(&in_set, jobs, true)), vec![0]);
}

#[test]
fn any_answering_entry_suffices() {
    let in_set = vec![failed(job("a.seq", 1, 1), 1), failed(job("a.seq", 50, 50), 2)];
    let jobs = vec![(job("a.seq", 20, 20), 0u8)];
    assert_eq!(files(&reuse_filter(&in_set, jobs, false)), Vec::<u8>::new());
}

#[test]
fn rerun_all_runs_every_job() {
    let in_set = vec![succeeded(job("a.seq", 10, 10), 1)];
    let jobs = vec![(job("a.seq", 10, 10), 0u8), (job("b.seq", 10, 10), 1u8)];
    assert_eq!(files(&jobs_to_run(&in_set, jobs.clone(), true, false)), vec![0, 1]);
    assert_eq!(files(&jobs_to_run(&in_set, jobs, false, false)), vec![1]);
}

#[test]
fn fresh_results_replace_stored_ones() {
    let in_set = vec![
        failed(job("a.seq", 1, 1), 1),
        succeeded(job("b.seq", 1, 1), 2),
        failed(job("c.seq", 1, 1), 3),
    ];
    let fresh = vec![succeeded(job("c.seq", 9, 9), 4), succeeded(job("a.seq", 9, 9), 5)];
    let merged = merge(in_set, fresh);
    assert_eq!(tags(&merged), vec![2, 4, 5]);
    let all = with_extra(merged, vec![succeeded(job("z.seq", 1, 1), 6)]);
    assert_eq!(tags(&all), vec![2, 4, 5, 6]);
}

#[test]
fn merge_without_fresh_results_keeps_the_store() {
    let in_set = vec![failed(job("a.seq", 1, 1), 1), succeeded(job("b.seq", 1, 1), 2)];
    assert_eq!(tags(&merge(in_set, vec![])), vec![1, 2]);
}

#[test]
fn rerun_after_complete_run_runs_nothing() {
    let jobs =
        vec![(job("a.seq", 10, 10), 0u8), (job("b.seq", 10, 10), 1u8), (job("c.seq", 10, 10), 2u8)];
    // First run against an empty store.
    let (in_set, extra) = partition(Vec::<JobResult<u32, ()>>::new(), &jobs);
    let left = jobs_to_run(&in_set, jobs.clone(), false, false);
    assert_eq!(files(&left), vec![0, 1, 2]);
    let fresh: Vec<JobResult<u32, ()>> = left
        .into_iter()
        .map(|(job, tag)| if tag == 1 { failed(job, 1) } else { succeeded(job, tag as u32) })
        .collect();
    let store = with_extra(merge(in_set, fresh), extra);
    // Second run against what the first one stored.
    let (in_set, extra) = partition(store, &jobs);
    assert_eq!(tags(&extra), Vec::<u32>::new());
    let left = jobs_to_run(&in_set, jobs, false, false);
    assert_eq!(left.len(), 0);
    assert_eq!(tags(&merge(in_set, vec![])), vec![0, 1, 2]);
}
