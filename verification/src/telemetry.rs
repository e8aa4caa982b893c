//! What is written to the log when a long-running task ends.

use vstd::prelude::*;
use vstd::string::StringExecFns;

verus! {

/// How a long-running task of the application came to an end.
pub enum TaskExit {
    /// The task returned without an error.
    Exited,
    /// The task returned an error, given here as it displays and with its
    /// chain of causes.
    Failed { message: String, cause_chain: String },
    /// The task did not run to its end, for the reason given.
    Aborted { message: String, cause_chain: String },
}

/// How grave a log record is.
#[derive(Debug, Clone, Copy, PartialEq, Eq, Structural)]
pub enum Severity {
    Info,
    Error,
}

/// What is logged when a task ends.
#[derive(Debug, PartialEq, Eq)]
pub struct ExitReport {
    pub severity: Severity,
    pub message: String,
    pub error_message: Option<String>,
    pub error_cause_chain: Option<String>,
}

/// The line that reports the end of the task `task_name`.
pub open spec fn exit_line(task_name: Seq<char>, outcome: TaskExit) -> Seq<char> {
    match outcome {
        TaskExit::Exited => task_name + " has exited"@,
        TaskExit::Failed { .. } => task_name + " has failed"@,
        TaskExit::Aborted { .. } => task_name + "'s task failed to complete"@,
    }
}

/// Describes the end of a task for the log: information when it exited, an
/// error with its cause when it failed or was cut short.
pub fn report_exit(task_name: &str, outcome: TaskExit) -> (report: ExitReport)
    ensures
        report.message@ == exit_line(task_name@, outcome),
        match outcome {
            TaskExit::Exited => {
                &&& report.severity == Severity::Info
                &&& report.error_message is None
                &&& report.error_cause_chain is None
            },
            TaskExit::Failed { message, cause_chain } => {
                &&& report.severity == Severity::Error
                &&& report.error_message == Some(message)
                &&& report.error_cause_chain == Some(cause_chain)
            },
            TaskExit::Aborted { message, cause_chain } => {
                &&& report.severity == Severity::Error
                &&& report.error_message == Some(message)
                &&& report.error_cause_chain == Some(cause_chain)
            },
        },
{
    match outcome {
        TaskExit::Exited => ExitReport {
            severity: Severity::Info,
            message: String::from_str(task_name).concat(" has exited"),
            error_message: None,
            error_cause_chain: None,
        },
        TaskExit::Failed { message, cause_chain } => ExitReport {
            severity: Severity::Error,
            message: String::from_str(task_name).concat(" has failed"),
            error_message: Some(message),
            error_cause_chain: Some(cause_chain),
        },
        TaskExit::Aborted { message, cause_chain } => ExitReport {
            severity: Severity::Error,
            message: String::from_str(task_name).concat("'s task failed to complete"),
            error_message: Some(message),
            error_cause_chain: Some(cause_chain),
        },
    }
}

} // verus!
