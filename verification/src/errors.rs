//! What can go wrong in a pipeline, and how each failure reads.

use crate::text::{signed_decimal, signed_decimal_string};
use vstd::prelude::*;
use vstd::string::*;

verus! {

/// How a child process ended: with an exit code, or killed by a signal.
#[derive(Clone, Copy, Debug, PartialEq, Eq, Structural)]
pub enum Exit {
    Code(i32),
    Signal,
}

/// A failure of a pipeline step.
#[derive(Clone, Debug, PartialEq, Eq)]
pub enum PipelineError {
    /// The version tag holds a character that may not reach a shell.
    InvalidTag { tag: String },
    /// The shell could not be started.
    SpawnFailed { context: String, command: String, cause: String },
    /// The command ran and did not exit with code 0.
    CommandFailed { context: String, exit: Exit, command: String },
    /// A required tool is not on the search path; nothing was run.
    MissingToolchain { tool: String },
    /// The build reported success and left nothing to collect.
    NoArtifactsProduced { searched: String },
    /// Release metadata could not be fetched.
    Network { reason: String },
    /// A directory could not be created or removed.
    Filesystem { context: String, reason: String },
}

/// A pipeline failure over plain values.
pub enum ErrorView {
    InvalidTag { tag: Seq<char> },
    SpawnFailed { context: Seq<char>, command: Seq<char>, cause: Seq<char> },
    CommandFailed { context: Seq<char>, exit: Exit, command: Seq<char> },
    MissingToolchain { tool: Seq<char> },
    NoArtifactsProduced { searched: Seq<char> },
    Network { reason: Seq<char> },
    Filesystem { context: Seq<char>, reason: Seq<char> },
}

impl View for PipelineError {
    type V = ErrorView;

    open spec fn view(&self) -> ErrorView {
        match self {
            PipelineError::InvalidTag { tag } => ErrorView::InvalidTag { tag: tag@ },
            PipelineError::SpawnFailed { context, command, cause } => ErrorView::SpawnFailed {
                context: context@,
                command: command@,
                cause: cause@,
            },
            PipelineError::CommandFailed { context, exit, command } => ErrorView::CommandFailed {
                context: context@,
                exit: *exit,
                command: command@,
            },
            PipelineError::MissingToolchain { tool } => ErrorView::MissingToolchain { tool: tool@ },
            PipelineError::NoArtifactsProduced { searched } => ErrorView::NoArtifactsProduced {
                searched: searched@,
            },
            PipelineError::Network { reason } => ErrorView::Network { reason: reason@ },
            PipelineError::Filesystem { context, reason } => ErrorView::Filesystem {
                context: context@,
                reason: reason@,
            },
        }
    }
}

/// How an exit reads inside a message: the code, or the word `signal`.
pub open spec fn exit_text(exit: Exit) -> Seq<char> {
    match exit {
        Exit::Code(code) => signed_decimal(code as int),
        Exit::Signal => "signal"@,
    }
}

/// `context`, a newline and `detail`; `detail` alone where there is no context.
pub open spec fn in_context(context: Seq<char>, detail: Seq<char>) -> Seq<char> {
    if context.len() == 0 {
        detail
    } else {
        context + "\n"@ + detail
    }
}

/// The message of a failure.
pub open spec fn description(e: ErrorView) -> Seq<char> {
    match e {
        ErrorView::InvalidTag { tag } => "Version tag contains unexpected characters: "@ + tag,
        ErrorView::SpawnFailed { context, command, cause } => in_context(
            context,
            "Failed to spawn: "@ + command + ": "@ + cause,
        ),
        ErrorView::CommandFailed { context, exit, command } => in_context(
            context,
            "Command failed (exit "@ + exit_text(exit) + "): "@ + command,
        ),
        ErrorView::MissingToolchain { tool } => tool + " not found in PATH"@,
        ErrorView::NoArtifactsProduced { searched } =>
            "Build appeared to succeed but no binaries were found in "@ + searched
            + "\nCheck the log above for linker errors."@,
        ErrorView::Network { reason } => "Network request failed: "@ + reason,
        ErrorView::Filesystem { context, reason } => context + ": "@ + reason,
    }
}

fn with_context(context: &str, detail: String) -> (s: String)
    ensures
        s@ == in_context(context@, detail@),
{
    if context.is_empty() {
        detail
    } else {
        let mut s = String::from_str(context);
        s.append("\n");
        s.append(detail.as_str());
        s
    }
}

impl Exit {
    /// Whether the process exited with code 0.
    pub fn success(&self) -> (b: bool)
        ensures
            b == (*self == Exit::Code(0)),
    {
        match self {
            Exit::Code(code) => *code == 0,
            Exit::Signal => false,
        }
    }

    /// The code, or the word `signal`.
    pub fn text(&self) -> (s: String)
        ensures
            s@ == exit_text(*self),
    {
        match self {
            Exit::Code(code) => signed_decimal_string(*code as i64),
            Exit::Signal => String::from_str("signal"),
        }
    }
}

impl PipelineError {
    /// A copy of this failure.
    pub fn duplicate(&self) -> (copy: PipelineError)
        ensures
            copy@ == self@,
    {
        match self {
            PipelineError::InvalidTag { tag } => PipelineError::InvalidTag { tag: tag.clone() },
            PipelineError::SpawnFailed { context, command, cause } => PipelineError::SpawnFailed {
                context: context.clone(),
                command: command.clone(),
                cause: cause.clone(),
            },
            PipelineError::CommandFailed { context, exit, command } => {
                PipelineError::CommandFailed {
                    context: context.clone(),
                    exit: *exit,
                    command: command.clone(),
                }
            },
            PipelineError::MissingToolchain { tool } => PipelineError::MissingToolchain {
                tool: tool.clone(),
            },
            PipelineError::NoArtifactsProduced { searched } => PipelineError::NoArtifactsProduced {
                searched: searched.clone(),
            },
            PipelineError::Network { reason } => PipelineError::Network { reason: reason.clone() },
            PipelineError::Filesystem { context, reason } => PipelineError::Filesystem {
                context: context.clone(),
                reason: reason.clone(),
            },
        }
    }

    /// The message of this failure.
    pub fn describe(&self) -> (s: String)
        ensures
            s@ == description(self@),
    {
        match self {
            PipelineError::InvalidTag { tag } => {
                let mut s = String::from_str("Version tag contains unexpected characters: ");
                s.append(tag.as_str());
                s
            },
            PipelineError::SpawnFailed { context, command, cause } => {
                let mut s = String::from_str("Failed to spawn: ");
                s.append(command.as_str());
                s.append(": ");
                s.append(cause.as_str());
                with_context(context.as_str(), s)
            },
            PipelineError::CommandFailed { context, exit, command } => {
                let mut s = String::from_str("Command failed (exit ");
                s.append(exit.text().as_str());
                s.append("): ");
                s.append(command.as_str());
                with_context(context.as_str(), s)
            },
            PipelineError::MissingToolchain { tool } => {
                let mut s = tool.clone();
                s.append(" not found in PATH");
                s
            },
            PipelineError::NoArtifactsProduced { searched } => {
                let mut s = String::from_str(
                    "Build appeared to succeed but no binaries were found in ",
                );
                s.append(searched.as_str());
                s.append("\nCheck the log above for linker errors.");
                s
            },
            PipelineError::Network { reason } => {
                let mut s = String::from_str("Network request failed: ");
                s.append(reason.as_str());
                s
            },
            PipelineError::Filesystem { context, reason } => {
                let mut s = context.clone();
                s.append(": ");
                s.append(reason.as_str());
                s
            },
        }
    }
}

} // verus!
