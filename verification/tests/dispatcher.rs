use pa_bench::algorithms::{AlgorithmParams, EdlibParams};
use pa_bench::cancel::Cancellation;
use pa_bench::cost::CostModel;
use pa_bench::dataset::Dataset;
use pa_bench::dispatch::{Counts, Dispatcher, Outcome, Recorded, Step};
use pa_bench::job::Job;
use pa_bench::process::{job_result, ExitStatus, RunnerFault, Verdict};
use pa_bench::result::{JobError, JobOutput, JobResult, ResourceUsage};

fn job(n: usize) -> Job {
    Job {
        time_limit: 60,
        mem_limit: 1 << 20,
        dataset: Dataset::File(format!("{n}.seq")),
        costs: CostModel::unit(),
        traceback: false,
        algo: AlgorithmParams::Edlib(EdlibParams),
    }
}

fn queue(n: usize) -> Vec<(Job, usize)> {
    (0..n).map(|i| (job(i), i)).collect()
}

fn output() -> JobOutput<()> {
    JobOutput { costs: vec![1, 2], exact_costs: None, is_exact: true, p_correct: None, measured: () }
}

fn usage() -> ResourceUsage {
    ResourceUsage { walltime: 1_500_000_000, usertime: 1_000_000_000, systemtime: 200_000_000, maxrss: 1 << 16 }
}

fn exited(code: i32) -> ExitStatus {
    ExitStatus { success: code == 0, signal: None, code: Some(code) }
}

fn killed(signal: i32) -> ExitStatus {
    ExitStatus { success: false, signal: Some(signal), code: None }
}

fn run(step: Step<usize, ()>, status: ExitStatus) -> JobResult<usize, ()> {
    match step {
        Step::Run(job, stats) => job_result(job, stats, usage(), status, Some(output())).unwrap(),
        other => panic!("expected a job to run, got {:?}", other),
    }
}

#[test]
fn signals_are_classified() {
    assert_eq!(killed(2).classify(), Verdict::Failed(JobError::Interrupted));
    assert_eq!(killed(6).classify(), Verdict::Failed(JobError::MemoryLimit));
    assert_eq!(killed(9).classify(), Verdict::Failed(JobError::Timeout));
    assert_eq!(killed(11).classify(), Verdict::Failed(JobError::Signal(11)));
    assert_eq!(killed(15).classify(), Verdict::Failed(JobError::Signal(15)));
}

#[test]
fn exit_codes_are_classified() {
    assert_eq!(exited(0).classify(), Verdict::Completed);
    assert_eq!(exited(101).classify(), Verdict::Failed(JobError::Panic));
    assert_eq!(exited(102).classify(), Verdict::Failed(JobError::Unsupported));
    assert_eq!(exited(1).classify(), Verdict::Failed(JobError::ExitCode(1)));
    assert_eq!(exited(2).classify(), Verdict::Failed(JobError::ExitCode(2)));
    assert_eq!(exited(-1).classify(), Verdict::Failed(JobError::ExitCode(-1)));
}

#[test]
fn signal_goes_before_code() {
    let both = ExitStatus { success: false, signal: Some(9), code: Some(101) };
    assert_eq!(both.classify(), Verdict::Failed(JobError::Timeout));
    let neither = ExitStatus { success: false, signal: None, code: None };
    assert_eq!(neither.classify(), Verdict::Unknown);
}

#[test]
fn result_of_a_completed_job_holds_its_output() {
    let result = job_result(job(1), 7usize, usage(), exited(0), Some(output())).unwrap();
    assert!(result.job.is_same_as(&job(1)));
    assert_eq!(result.stats, 7);
    assert_eq!(result.resources, usage());
    assert_eq!(result.output.unwrap().costs, vec![1, 2]);
}

#[test]
fn output_of_a_failed_job_is_not_trusted() {
    let result = job_result(job(1), 7usize, usage(), killed(9), Some(output())).unwrap();
    assert_eq!(result.output.err(), Some(JobError::Timeout));
    assert_eq!(result.resources, usage());
}

#[test]
fn success_without_output_is_a_fault() {
    let none: Option<JobOutput<()>> = None;
    let fault = job_result(job(1), 7usize, usage(), exited(0), none).err();
    assert_eq!(fault, Some(RunnerFault::MissingOutput));
    let none: Option<JobOutput<()>> = None;
    let unknown = ExitStatus { success: false, signal: None, code: None };
    assert_eq!(job_result(job(1), 7usize, usage(), unknown, none).err(), Some(RunnerFault::UnknownExit));
}

#[test]
fn jobs_leave_the_queue_in_order() {
    let mut dispatcher: Dispatcher<usize, ()> = Dispatcher::new(queue(3));
    assert_eq!(dispatcher.total(), 3);
    for expected in 0..3 {
        match dispatcher.next(true) {
            Step::Run(job, stats) => {
                assert_eq!(stats, expected);
                assert_eq!(job.dataset, Dataset::File(format!("{expected}.seq")));
            }
            other => panic!("expected job {expected}, got {:?}", other),
        }
    }
    assert_eq!(dispatcher.in_flight(), 3);
    assert!(matches!(dispatcher.next(true), Step::Stop));
    assert_eq!(dispatcher.counts(), Counts::zero());
}

#[test]
fn results_are_counted_by_kind() {
    let mut dispatcher: Dispatcher<usize, ()> = Dispatcher::new(queue(6));
    let statuses = [exited(0), exited(102), killed(2), killed(9), exited(101), exited(3)];
    let kinds = [
        Outcome::Success,
        Outcome::Unsupported,
        Outcome::Interrupted,
        Outcome::Failed,
        Outcome::Failed,
        Outcome::Failed,
    ];
    for (status, kind) in statuses.into_iter().zip(kinds) {
        let result = run(dispatcher.next(true), status);
        let recorded = dispatcher.record(result, true);
        assert_eq!(recorded, Recorded { outcome: kind, kept: true, report: kind == Outcome::Failed });
    }
    assert_eq!(
        dispatcher.counts(),
        Counts { done: 6, success: 1, unsupported: 1, skipped: 0, failed: 3 }
    );
    assert_eq!(dispatcher.in_flight(), 0);
    assert_eq!(dispatcher.into_results().len(), 6);
}

#[test]
fn interrupt_after_three_of_ten_jobs() {
    let mut dispatcher: Dispatcher<usize, ()> = Dispatcher::new(queue(10));
    for _ in 0..3 {
        let result = run(dispatcher.next(true), exited(0));
        assert!(dispatcher.record(result, true).kept);
    }
    // The interrupt arrives: the worker takes no further job.
    assert!(matches!(dispatcher.next(false), Step::Stop));
    assert!(matches!(dispatcher.next(false), Step::Stop));
    assert_eq!(dispatcher.counts().done, 3);
    let results = dispatcher.into_results();
    let stats: Vec<usize> = results.iter().map(|r| r.stats).collect();
    assert_eq!(stats, vec![0, 1, 2]);
}

#[test]
fn jobs_in_flight_at_the_interrupt_finish() {
    let mut dispatcher: Dispatcher<usize, ()> = Dispatcher::new(queue(10));
    let first = dispatcher.next(true);
    let second = dispatcher.next(true);
    let third = dispatcher.next(true);
    let done = run(first, exited(0));
    assert!(dispatcher.record(done, true).kept);
    // Interrupted while two jobs are running. One finishes, the other is
    // taken down with the run.
    assert!(matches!(dispatcher.next(false), Step::Stop));
    let finished = run(second, exited(0));
    let torn_down = run(third, killed(2));
    assert!(dispatcher.record(finished, false).kept);
    let recorded = dispatcher.record(torn_down, false);
    assert_eq!(recorded, Recorded { outcome: Outcome::Interrupted, kept: false, report: false });
    assert_eq!(dispatcher.counts().done, 3);
    let stats: Vec<usize> = dispatcher.into_results().iter().map(|r| r.stats).collect();
    assert_eq!(stats, vec![0, 1]);
}

#[test]
fn failure_during_teardown_is_dropped_but_counted() {
    let mut dispatcher: Dispatcher<usize, ()> = Dispatcher::new(queue(1));
    let result = run(dispatcher.next(true), killed(9));
    let recorded = dispatcher.record(result, false);
    assert_eq!(recorded, Recorded { outcome: Outcome::Failed, kept: false, report: true });
    assert_eq!(dispatcher.counts(), Counts { done: 1, success: 0, unsupported: 0, skipped: 0, failed: 1 });
    assert_eq!(dispatcher.into_results().len(), 0);
}

#[test]
fn empty_queue_stops_at_once() {
    let mut dispatcher: Dispatcher<usize, ()> = Dispatcher::new(vec![]);
    assert!(matches!(dispatcher.next(true), Step::Stop));
    assert_eq!(dispatcher.total(), 0);
    assert_eq!(dispatcher.into_results().len(), 0);
}

#[test]
fn zero_usage_is_the_default() {
    assert_eq!(ResourceUsage::default(), ResourceUsage::zero());
    assert_eq!(
        ResourceUsage::zero(),
        ResourceUsage { walltime: 0, usertime: 0, systemtime: 0, maxrss: 0 }
    );
}

#[test]
fn run_is_stopped_once_and_stays_stopped() {
    let mut cancellation = Cancellation::new();
    assert!(cancellation.is_running());
    assert!(cancellation.interrupt());
    assert!(!cancellation.is_running());
    assert!(!cancellation.interrupt());
    assert!(!cancellation.interrupt());
    assert!(!cancellation.is_running());
}

#[test]
fn stopped_run_hands_out_no_job() {
    let mut cancellation = Cancellation::new();
    let mut dispatcher: Dispatcher<usize, ()> = Dispatcher::new(queue(4));
    let first = run(dispatcher.next(cancellation.is_running()), exited(0));
    dispatcher.record(first, cancellation.is_running());
    cancellation.interrupt();
    for _ in 0..5 {
        assert!(matches!(dispatcher.next(cancellation.is_running()), Step::Stop));
    }
    assert_eq!(dispatcher.in_flight(), 0);
    assert_eq!(dispatcher.into_results().len(), 1);
}

#[test]
fn copies_of_results_hold_the_same() {
    let result = job_result(job(3), 9usize, usage(), exited(0), Some(output())).unwrap();
    let copy = result.clone();
    assert!(copy.job.is_same_as(&result.job));
    assert_eq!(copy.stats, 9);
    assert_eq!(copy.resources, result.resources);
    assert_eq!(copy.output.as_ref().unwrap().costs, vec![1, 2]);
    assert_eq!(copy.output.as_ref().unwrap().is_exact, true);
    let failed = job_result(job(3), 9usize, usage(), killed(6), Some(output())).unwrap();
    assert_eq!(failed.clone().output.err(), Some(JobError::MemoryLimit));
}
