use pa_bench::dispatch::Counts;
use pa_bench::plan::{output_is_allowed, plan_cores, release_settings, reserve_cores, workers};
use pa_bench::text::{progress_line, push_decimal, push_padded, push_signed_decimal, runner_args};

fn decimal(n: u64) -> String {
    let mut s = String::new();
    push_decimal(&mut s, n);
    s
}

fn signed(n: i64) -> String {
    let mut s = String::new();
    push_signed_decimal(&mut s, n);
    s
}

fn padded(n: u64) -> String {
    let mut s = String::from("|");
    push_padded(&mut s, n);
    s
}

#[test]
fn numbers_are_written_in_decimal() {
    for n in [0u64, 1, 9, 10, 11, 99, 100, 101, 12345, 1 << 32, u64::MAX - 1, u64::MAX] {
        assert_eq!(decimal(n), format!("{n}"));
    }
    for n in [0i64, 1, -1, -20, 19, i32::MIN as i64, i32::MAX as i64, i64::MIN, i64::MAX] {
        assert_eq!(signed(n), format!("{n}"));
    }
    assert_eq!(decimal(1234567890), "1234567890");
    assert_eq!(signed(-9223372036854775808), "-9223372036854775808");
}

#[test]
fn numbers_are_padded_to_three() {
    assert_eq!(padded(0), "|  0");
    assert_eq!(padded(7), "|  7");
    assert_eq!(padded(10), "| 10");
    assert_eq!(padded(99), "| 99");
    assert_eq!(padded(100), "|100");
    assert_eq!(padded(1000), "|1000");
    for n in [0u64, 5, 42, 314, 2718, u64::MAX] {
        assert_eq!(padded(n), format!("|{n:3}"));
    }
}

#[test]
fn runner_arguments() {
    assert_eq!(runner_args(None, None), vec!["run"]);
    assert_eq!(runner_args(Some(3), None), vec!["run", "--pin-core-id", "3"]);
    assert_eq!(runner_args(None, Some(-20)), vec!["run", "--nice=-20"]);
    assert_eq!(runner_args(Some(17), Some(5)), vec!["run", "--pin-core-id", "17", "--nice=5"]);
    assert_eq!(
        runner_args(Some(0), Some(i32::MIN)),
        vec!["run", "--pin-core-id", "0", "--nice=-2147483648"]
    );
}

#[test]
fn progress_is_shown_on_one_line() {
    let counts = Counts { done: 12, success: 7, unsupported: 2, skipped: 1, failed: 2 };
    assert_eq!(
        progress_line(&counts, 150),
        "\r Processed:  12 / 150. Success   7, Unsupported   2, Failed   2, Skipped 1"
    );
    let Counts { done, success, unsupported, skipped, failed } = counts;
    let num_jobs = 150;
    assert_eq!(
        progress_line(&counts, num_jobs),
        format!("\r Processed: {done:3} / {num_jobs:3}. Success {success:3}, Unsupported {unsupported:3}, Failed {failed:3}, Skipped {skipped}")
    );
    assert_eq!(
        progress_line(&Counts::zero(), 0),
        "\r Processed:   0 /   0. Success   0, Unsupported   0, Failed   0, Skipped 0"
    );
    let many = Counts { done: 4000, success: 1000, unsupported: 1000, skipped: 1000, failed: 1000 };
    assert_eq!(
        progress_line(&many, 5000),
        "\r Processed: 4000 / 5000. Success 1000, Unsupported 1000, Failed 1000, Skipped 1000"
    );
}

#[test]
fn release_runs_have_one_worker_and_high_priority() {
    assert_eq!(release_settings(true, None, 5), (Some(-20), 1));
    assert_eq!(release_settings(true, Some(3), 5), (Some(3), 1));
    assert_eq!(release_settings(false, None, 5), (None, 5));
    assert_eq!(release_settings(false, Some(-5), 8), (Some(-5), 8));
}

#[test]
fn output_needs_a_single_experiment() {
    assert!(output_is_allowed(true, 1));
    assert!(!output_is_allowed(true, 0));
    assert!(!output_is_allowed(true, 2));
    assert!(output_is_allowed(false, 0));
    assert!(output_is_allowed(false, 1));
    assert!(output_is_allowed(false, 7));
}

#[test]
fn first_core_is_for_the_scheduler() {
    let plan = reserve_cores(&vec![4, 5, 6, 7, 8, 9], 3).unwrap();
    assert_eq!(plan.orchestrator, 4);
    assert_eq!(plan.runners, vec![5, 6, 7]);
    let plan = reserve_cores(&vec![0, 1, 2], 5).unwrap();
    assert_eq!(plan.orchestrator, 0);
    assert_eq!(plan.runners, vec![1, 2]);
    let plan = reserve_cores(&vec![0, 1, 2], 2).unwrap();
    assert_eq!(plan.runners, vec![1, 2]);
    let plan = reserve_cores(&vec![3], 5).unwrap();
    assert_eq!((plan.orchestrator, plan.runners), (3, vec![]));
    let plan = reserve_cores(&vec![0, 1], 0).unwrap();
    assert_eq!((plan.orchestrator, plan.runners), (0, vec![]));
    let plan = reserve_cores(&vec![0, 1], usize::MAX).unwrap();
    assert_eq!((plan.orchestrator, plan.runners), (0, vec![1]));
    assert!(reserve_cores(&vec![], 5).is_none());
}

#[test]
fn machine_cores_are_limited_by_workers() {
    for num_jobs in [0usize, 1, 2, 1000] {
        if let Some(plan) = plan_cores(num_jobs) {
            assert!(plan.runners.len() <= num_jobs);
            assert!(!plan.runners.contains(&plan.orchestrator));
        }
    }
}

#[test]
fn workers_are_pinned_or_single() {
    assert_eq!(workers(&vec![1, 2, 3], false), vec![Some(1), Some(2), Some(3)]);
    assert_eq!(workers(&vec![1, 2, 3], true), vec![None]);
    assert_eq!(workers(&vec![], true), vec![None]);
    assert_eq!(workers(&vec![], false), vec![]);
}
