//! Reading the exit of a runner process.
//!
//! A runner is a process that takes one job and aligns its dataset. When it
//! exits with success it has written its output; when it does not, the way
//! it ended says how the job failed.

use vstd::prelude::*;
use crate::job::Job;
use crate::result::{JobError, JobOutput, JobResult, ResourceUsage};

verus! {

/// The signal sent when the user interrupts.
pub const SIGNAL_INTERRUPT: i32 = 2;

/// The signal with which a process aborts when it cannot allocate.
pub const SIGNAL_ABORT: i32 = 6;

/// The signal with which a process is killed when its processor time ran
/// out.
pub const SIGNAL_KILL: i32 = 9;

/// The code with which a runner exits when it panicked.
pub const EXIT_PANIC: i32 = 101;

/// The code with which a runner exits when its aligner does not support
/// the job.
pub const EXIT_UNSUPPORTED: i32 = 102;

/// How a process ended.
#[derive(Clone, Copy, Debug, PartialEq, Eq, Structural)]
pub struct ExitStatus {
    /// Whether it exited with success.
    pub success: bool,
    /// The signal that ended it, if one did.
    pub signal: Option<i32>,
    /// The code with which it exited, if it exited by itself.
    pub code: Option<i32>,
}

/// What the end of a runner says of its job.
#[derive(Clone, Copy, Debug, PartialEq, Eq, Structural)]
pub enum Verdict {
    /// The job completed and the runner wrote its output.
    Completed,
    /// The job failed.
    Failed(JobError),
    /// The process ended without success, signal or code.
    Unknown,
}

/// The failure that a signal stands for.
pub open spec fn signal_error(signal: i32) -> JobError {
    if signal == SIGNAL_INTERRUPT {
        JobError::Interrupted
    } else if signal == SIGNAL_ABORT {
        JobError::MemoryLimit
    } else if signal == SIGNAL_KILL {
        JobError::Timeout
    } else {
        JobError::Signal(signal)
    }
}

/// The failure that an exit code stands for.
pub open spec fn code_error(code: i32) -> JobError {
    if code == EXIT_PANIC {
        JobError::Panic
    } else if code == EXIT_UNSUPPORTED {
        JobError::Unsupported
    } else {
        JobError::ExitCode(code)
    }
}

impl ExitStatus {
    /// What the status says of the job: success first, then the signal,
    /// then the code.
    pub open spec fn verdict(self) -> Verdict {
        if self.success {
            Verdict::Completed
        } else if let Some(signal) = self.signal {
            Verdict::Failed(signal_error(signal))
        } else if let Some(code) = self.code {
            Verdict::Failed(code_error(code))
        } else {
            Verdict::Unknown
        }
    }

    /// Reads the status of a runner that exited.
    pub fn classify(&self) -> (v: Verdict)
        ensures
            v == self.verdict(),
            v != Verdict::Failed(JobError::Skipped),
    {
        if self.success {
            return Verdict::Completed;
        }
        if let Some(signal) = self.signal {
            let err = if signal == SIGNAL_INTERRUPT {
                JobError::Interrupted
            } else if signal == SIGNAL_ABORT {
                JobError::MemoryLimit
            } else if signal == SIGNAL_KILL {
                JobError::Timeout
            } else {
                JobError::Signal(signal)
            };
            return Verdict::Failed(err);
        }
        if let Some(code) = self.code {
            let err = if code == EXIT_PANIC {
                JobError::Panic
            } else if code == EXIT_UNSUPPORTED {
                JobError::Unsupported
            } else {
                JobError::ExitCode(code)
            };
            return Verdict::Failed(err);
        }
        Verdict::Unknown
    }
}

/// A runner never reports a job as skipped: only the scheduler does.
pub proof fn lemma_runner_never_skips(status: ExitStatus)
    ensures
        status.verdict() != Verdict::Failed(JobError::Skipped),
{
}

/// A runner that broke the agreement on how it reports.
#[derive(Clone, Copy, Debug, PartialEq, Eq, Structural)]
pub enum RunnerFault {
    /// The runner exited with success, and no output could be read from it.
    MissingOutput,
    /// The runner ended in a way that says nothing of the job.
    UnknownExit,
}

/// Puts together the result of a job from what its runner left behind.
///
/// A runner that exited with success has its output recorded. One that
/// failed has the failure recorded, and what it wrote is not looked at.
/// A runner that exited with success without readable output, or of which
/// nothing is known, is a fault of the runner and gives no result.
pub fn job_result<S, M>(
    job: Job,
    stats: S,
    resources: ResourceUsage,
    status: ExitStatus,
    output: Option<JobOutput<M>>,
) -> (r: Result<JobResult<S, M>, RunnerFault>)
    ensures
        match status.verdict() {
            Verdict::Completed => match output {
                Some(out) => r matches Ok(res) && res == (JobResult {
                    job,
                    stats,
                    resources,
                    output: Ok(out),
                }),
                None => r matches Err(RunnerFault::MissingOutput),
            },
            Verdict::Failed(e) => r matches Ok(res) && res == (JobResult::<S, M> {
                job,
                stats,
                resources,
                output: Err(e),
            }),
            Verdict::Unknown => r matches Err(RunnerFault::UnknownExit),
        },
{
    match status.classify() {
        Verdict::Completed => match output {
            Some(out) => Ok(JobResult { job, stats, resources, output: Ok(out) }),
            None => Err(RunnerFault::MissingOutput),
        },
        Verdict::Failed(e) => Ok(JobResult { job, stats, resources, output: Err(e) }),
        Verdict::Unknown => Err(RunnerFault::UnknownExit),
    }
}

} // verus!
