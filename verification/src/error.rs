//! Error taxonomy of the supervisor.
//!
//! Configuration errors are startup-fatal; process-management errors,
//! and a missing shell, are fatal only for the task that hit them; a
//! join failure or an unclassified error aborts the whole supervisor.
//!
//! Causes that the operating system or a runtime reports (an I/O error, a
//! join error) are carried here as plain data: an `errno` where one
//! exists, a message string where the cause was textual.

use vstd::prelude::*;

verus! {

/// Reasons a single crontab time field fails to parse.
#[derive(Debug, Clone)]
pub enum CronFieldError {
    /// The text is not `*`, `*/k`, a number, or a comma-separated list of
    /// numbers.
    BadNumber,
    /// A numeric value in the field is at or above the field's modulus,
    /// or the step of `*/k` is zero.
    OutOfRange,
}

/// Errors from parsing the crontab file.
#[derive(Debug, Clone)]
pub enum CronParseError {
    /// The line does not have five fields followed by a command.
    InvalidSyntax(String),
    /// A field expected by the grammar could not be captured.
    FieldMatch { cron_line: String, field_name: String },
    /// A captured field failed to parse as a time field spec.
    Parse { source: CronFieldError, cron_line: String, matched: String, field_name: String },
}

/// Errors from validating a crontab entry at cron-task entry.
#[derive(Debug, Clone)]
pub enum CronConfigError {
    /// Day-of-month and day-of-week are both constrained; that overlap is
    /// not supported.
    ClashingConfig,
    /// A higher-order field is set while the minute field is not.
    MissingMinute,
    /// Any other cron bookkeeping problem.
    Other { message: String },
}

/// Errors from resolving the shell executable.
#[derive(Debug, Clone)]
pub enum FindShellError {
    /// No file with the configured shell name exists under any `PATH` entry.
    ShellNotFound,
    /// Reading the environment failed.
    Other { message: String },
}

/// The supervisor's error surface.
#[derive(Debug, Clone)]
#[allow(inconsistent_fields)]
pub enum WingmateInitError {
    /// The configuration search path list is empty.
    InvalidConfigSearchPath,
    /// No search directory yielded a service or a crontab entry.
    NoServiceOrCron,
    /// Spawning a child failed; `message` is the attempted command line.
    SpawnError { message: String },
    /// The crontab file failed to parse.
    Cron { source: CronParseError },
    /// Shell resolution failed.
    FindShell { source: FindShellError },
    /// Waiting on a child returned an unexpected error; `errno` is the
    /// operating system error code, if the error carried one.
    ChildExit { errno: Option<i32> },
    /// Sending TERM to a child failed other than with "no such process".
    ChildNotFound,
    /// Setting up a signal stream failed.
    Signal,
    /// A shell-prefixed service was configured but no shell was resolved.
    NoShellAvailable,
    /// Awaiting a finished task failed.
    Join,
    /// A crontab entry failed validation.
    CronConfig { source: CronConfigError },
    /// A signal-related system call failed; `errno` is its error code.
    FromNix { errno: i32 },
    /// Any other failure.
    Other { message: String },
}

/// Whether a task's error aborts the whole supervisor.
///
/// Errors inside the supervision, cron, reaper and pump tasks are logged
/// but do not take the supervisor down: a single misbehaving service must
/// not kill the init process. A missing shell is likewise a hard error
/// only for the shell-prefixed service that needed it. Only a join
/// failure, an unclassified error, or a startup-configuration error ends
/// the run.
pub open spec fn spec_error_aborts(e: WingmateInitError) -> bool {
    match e {
        WingmateInitError::SpawnError { .. } => false,
        WingmateInitError::ChildExit { .. } => false,
        WingmateInitError::ChildNotFound => false,
        WingmateInitError::FromNix { .. } => false,
        WingmateInitError::Signal => false,
        WingmateInitError::CronConfig { .. } => false,
        WingmateInitError::NoShellAvailable => false,
        _ => true,
    }
}

impl WingmateInitError {
    /// Decision used by the orchestration loop when a task returns an
    /// error: `true` means the supervisor stops, `false` means it logs
    /// and keeps running.
    pub fn aborts_supervisor(&self) -> (r: bool)
        ensures
            r == spec_error_aborts(*self),
    {
        match self {
            WingmateInitError::SpawnError { .. } => false,
            WingmateInitError::ChildExit { .. } => false,
            WingmateInitError::ChildNotFound => false,
            WingmateInitError::FromNix { .. } => false,
            WingmateInitError::Signal => false,
            WingmateInitError::CronConfig { .. } => false,
            WingmateInitError::NoShellAvailable => false,
            _ => true,
        }
    }
}

} // verus!
