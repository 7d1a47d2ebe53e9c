//! What the service knows about its own start and end.

use vstd::prelude::*;

verus! {

/// The kinds of part that are handed to the application when it is built.
#[derive(Clone, Copy, Debug, PartialEq, Eq, Hash, Structural)]
pub enum ApplicationData {
    EmailClient,
}

/// The address under which clients reach the service.
#[derive(Debug)]
pub struct ApplicationBaseUrl(pub String);

/// How one of the service's long-running tasks ended.
#[derive(Debug)]
pub enum ExitOutcome {
    /// The task returned without an error.
    Exited,
    /// The task returned an error; the text describes it.
    Failed(String),
    /// The task did not run to its end; the text describes why.
    Aborted(String),
}

/// How loud a log line is.
#[derive(Clone, Copy, Debug, PartialEq, Eq, Structural)]
pub enum LogLevel {
    Info,
    Error,
}

/// A line for the log about the end of a task.
#[derive(Debug)]
pub struct ExitReport {
    pub level: LogLevel,
    pub message: String,
    /// The error that ended the task, if one did.
    pub cause: Option<String>,
}

/// The log line for the end of the task `task_name`.
pub open spec fn exit_message(task_name: Seq<char>, outcome: ExitOutcome) -> Seq<char> {
    match outcome {
        ExitOutcome::Exited => task_name + " has exited"@,
        ExitOutcome::Failed(_) => task_name + " failed"@,
        ExitOutcome::Aborted(_) => task_name + "' task failed to complete"@,
    }
}

/// Says what to log when a task has ended: a note when it returned in
/// order, an error with its cause otherwise.
pub fn report_exit(task_name: &str, outcome: ExitOutcome) -> (report: ExitReport)
    ensures
        report.message@ == exit_message(task_name@, outcome),
        report.level == match outcome {
            ExitOutcome::Exited => LogLevel::Info,
            _ => LogLevel::Error,
        },
        match outcome {
            ExitOutcome::Exited => report.cause is None,
            ExitOutcome::Failed(cause) => report.cause == Some(cause),
            ExitOutcome::Aborted(cause) => report.cause == Some(cause),
        },
{
    let name = String::from_str(task_name);
    match outcome {
        ExitOutcome::Exited => ExitReport {
            level: LogLevel::Info,
            message: name.concat(" has exited"),
            cause: None,
        },
        ExitOutcome::Failed(cause) => ExitReport {
            level: LogLevel::Error,
            message: name.concat(" failed"),
            cause: Some(cause),
        },
        ExitOutcome::Aborted(cause) => ExitReport {
            level: LogLevel::Error,
            message: name.concat("' task failed to complete"),
            cause: Some(cause),
        },
    }
}

} // verus!
