use pa_bench::algorithms::{AlgorithmParams, EdlibParams, Heuristic, MemoryModel, WfaParams};
use pa_bench::cost::CostModel;
use pa_bench::dataset::{Dataset, GeneratedDataset};
use pa_bench::dispatch::{Dispatcher, Step};
use pa_bench::job::Job;
use pa_bench::result::{JobError, JobResult, ResourceUsage};
use pa_bench::skip::skip;

fn generated(length: usize) -> Dataset {
    Dataset::Generated(GeneratedDataset {
        prefix: String::from("data/generated"),
        seed: 31415,
        error_model: String::from("Uniform"),
        error_rate: 10,
        length,
        total_size: 100_000,
        pattern_length: None,
    })
}

fn edlib_job(length: usize) -> Job {
    Job {
        time_limit: 60,
        mem_limit: 1 << 30,
        dataset: generated(length),
        costs: CostModel::unit(),
        traceback: false,
        algo: AlgorithmParams::Edlib(EdlibParams),
    }
}

fn wfa_job(length: usize) -> Job {
    Job {
        algo: AlgorithmParams::Wfa(WfaParams {
            memory_model: MemoryModel::MemoryUltraLow,
            heuristic: Heuristic::Disabled,
        }),
        ..edlib_job(length)
    }
}

fn failed(job: Job, error: JobError) -> JobResult<(), ()> {
    JobResult { job, stats: (), resources: ResourceUsage::zero(), output: Err(error) }
}

#[test]
fn larger_job_is_skipped_after_timeout() {
    let prior = vec![failed(edlib_job(100), JobError::Timeout)];
    assert_eq!(skip(&edlib_job(1000), &prior), Some(JobError::Skipped));
}

#[test]
fn unsupported_is_carried_over() {
    let prior = vec![failed(edlib_job(100), JobError::Unsupported)];
    assert_eq!(skip(&edlib_job(1000), &prior), Some(JobError::Unsupported));
}

#[test]
fn first_blocking_result_decides() {
    let prior = vec![
        failed(edlib_job(5000), JobError::Unsupported),
        failed(edlib_job(200), JobError::Panic),
        failed(edlib_job(100), JobError::Unsupported),
    ];
    assert_eq!(skip(&edlib_job(1000), &prior), Some(JobError::Skipped));
}

#[test]
fn other_aligner_is_not_skipped() {
    let prior = vec![failed(edlib_job(100), JobError::Timeout)];
    assert_eq!(skip(&wfa_job(1000), &prior), None);
}

#[test]
fn other_cost_model_is_not_skipped() {
    let prior = vec![failed(wfa_job(100), JobError::Timeout)];
    let candidate = Job { costs: CostModel::affine(1, 2, 1), ..wfa_job(1000) };
    assert_eq!(skip(&candidate, &prior), None);
}

#[test]
fn other_traceback_is_not_skipped() {
    let prior = vec![failed(wfa_job(100), JobError::Timeout)];
    let candidate = Job { traceback: true, ..wfa_job(1000) };
    assert_eq!(skip(&candidate, &prior), None);
}

#[test]
fn smaller_job_is_not_skipped() {
    let prior = vec![failed(edlib_job(1000), JobError::Timeout)];
    assert_eq!(skip(&edlib_job(100), &prior), None);
}

#[test]
fn job_with_more_resources_is_not_skipped() {
    let prior = vec![failed(edlib_job(100), JobError::Timeout)];
    let candidate = Job { time_limit: 61, ..edlib_job(1000) };
    assert_eq!(skip(&candidate, &prior), None);
}

#[test]
fn file_dataset_is_never_skipped() {
    let file = Job { dataset: Dataset::File(String::from("a.seq")), ..edlib_job(1) };
    let same = Job { dataset: Dataset::File(String::from("a.seq")), ..edlib_job(1) };
    let prior = vec![failed(file, JobError::Timeout)];
    assert_eq!(skip(&same, &prior), None);
}

#[test]
fn larger_job_after_timeout_is_not_run() {
    let jobs = vec![(edlib_job(100), ()), (edlib_job(1000), ())];
    let mut dispatcher: Dispatcher<(), ()> = Dispatcher::new(jobs);
    let first = match dispatcher.next(true) {
        Step::Run(job, stats) => failed_with(job, stats),
        other => panic!("the first job is run, not {:?}", other),
    };
    dispatcher.record(first, true);
    let mut spawned = 1;
    match dispatcher.next(true) {
        Step::Skip(result) => {
            assert_eq!(result.output.as_ref().err(), Some(&JobError::Skipped));
            assert_eq!(result.resources, ResourceUsage::zero());
            assert_eq!(result.resources.walltime, 0);
            assert_eq!(result.resources.maxrss, 0);
            assert!(result.job.is_same_as(&edlib_job(1000)));
            dispatcher.record(result, true);
        }
        Step::Run(..) => spawned += 1,
        Step::Stop => panic!("a job is left"),
    }
    assert_eq!(spawned, 1);
    assert!(matches!(dispatcher.next(true), Step::Stop));
    let counts = dispatcher.counts();
    assert_eq!((counts.done, counts.failed, counts.skipped), (2, 1, 1));
    let results = dispatcher.into_results();
    assert_eq!(results.len(), 2);
    assert_eq!(results[1].output.as_ref().err(), Some(&JobError::Skipped));
}

fn failed_with(job: Job, stats: ()) -> JobResult<(), ()> {
    JobResult {
        job,
        stats,
        resources: ResourceUsage { walltime: 60_000_000_000, usertime: 59, systemtime: 1, maxrss: 4096 },
        output: Err(JobError::Timeout),
    }
}
