//! What a pipeline tells its observer, and what it asks of the outside world.
//!
//! A pipeline never touches a disk or a process. It hands out a `Request`,
//! the caller does the work and hands back the matching `Event`.

use crate::process::{RunReport, RunReportView};
use crate::text::{optional_text, views};
use vstd::prelude::*;
use vstd::string::*;

verus! {

/// A message for the observer.
#[derive(Clone, Debug, PartialEq, Eq)]
pub enum AppMessage {
    /// Text for the log.
    Log(String),
    /// Progress in percent, from 0 to 100.
    Progress(u8),
    /// The release tags of the first project.
    BitcoinVersionsLoaded(Vec<String>),
    /// The release tags of the second project.
    ElectrsVersionsLoaded(Vec<String>),
    /// A notice to show; `is_error` marks a failure.
    ShowDialog { title: String, message: String, is_error: bool },
    /// The task is over; controls may be enabled again.
    TaskDone,
}

/// A message over plain values.
pub enum MessageView {
    Log(Seq<char>),
    Progress(int),
    BitcoinVersionsLoaded(Seq<Seq<char>>),
    ElectrsVersionsLoaded(Seq<Seq<char>>),
    ShowDialog { title: Seq<char>, message: Seq<char>, is_error: bool },
    TaskDone,
}

impl View for AppMessage {
    type V = MessageView;

    open spec fn view(&self) -> MessageView {
        match self {
            AppMessage::Log(text) => MessageView::Log(text@),
            AppMessage::Progress(percent) => MessageView::Progress(*percent as int),
            AppMessage::BitcoinVersionsLoaded(tags) => MessageView::BitcoinVersionsLoaded(
                views(tags@),
            ),
            AppMessage::ElectrsVersionsLoaded(tags) => MessageView::ElectrsVersionsLoaded(
                views(tags@),
            ),
            AppMessage::ShowDialog { title, message, is_error } => MessageView::ShowDialog {
                title: title@,
                message: message@,
                is_error: *is_error,
            },
            AppMessage::TaskDone => MessageView::TaskDone,
        }
    }
}

/// The views of a sequence of messages.
pub open spec fn message_views(v: Seq<AppMessage>) -> Seq<MessageView> {
    v.map_values(|m: AppMessage| m@)
}

/// A question for the person at the controls. The reply slot itself stays
/// with the caller; the answer comes back as `Event::Confirmed`.
#[derive(Clone, Debug, PartialEq, Eq)]
pub struct ConfirmRequest {
    pub title: String,
    pub message: String,
}

/// An entry of a directory, as much of it as artifact discovery reads.
#[derive(Clone, Debug, PartialEq, Eq)]
pub struct DirEntry {
    pub path: String,
    pub is_file: bool,
    pub mode: u32,
}

/// How the copy of one artifact ended.
#[derive(Clone, Debug, PartialEq, Eq)]
pub enum CopyReport {
    /// The source file is not there.
    Missing,
    /// The file was copied and made executable.
    Copied,
    /// The copy failed, for the reason given.
    Failed(String),
}

/// A copy report over plain values.
pub enum CopyReportView {
    Missing,
    Copied,
    Failed(Seq<char>),
}

impl View for CopyReport {
    type V = CopyReportView;

    open spec fn view(&self) -> CopyReportView {
        match self {
            CopyReport::Missing => CopyReportView::Missing,
            CopyReport::Copied => CopyReportView::Copied,
            CopyReport::Failed(reason) => CopyReportView::Failed(reason@),
        }
    }
}

/// Work that a pipeline asks of the outside world.
#[derive(Clone, Debug, PartialEq, Eq)]
pub enum Request {
    /// Create the directory and its parents.
    MakeDir { path: String },
    /// Say whether the path exists.
    PathExists { path: String },
    /// Run the program quietly and report its output.
    Probe { argv: Vec<String> },
    /// Run the program quietly and report whether it succeeded.
    Check { argv: Vec<String> },
    /// Remove the directory and all below it.
    RemoveTree { path: String },
    /// Run the command in a shell, streaming its output to the log.
    Run { command: String, cwd: Option<String> },
    /// List the entries of the directory.
    ListDir { dir: String },
    /// Copy the file and make the copy executable.
    CopyFile { from: String, to: String },
    /// Put the question and wait for the answer.
    Confirm { title: String, message: String },
    /// Wait for the given number of seconds.
    Pause { seconds: u64 },
}

/// A request over plain values.
pub enum RequestView {
    MakeDir { path: Seq<char> },
    PathExists { path: Seq<char> },
    Probe { argv: Seq<Seq<char>> },
    Check { argv: Seq<Seq<char>> },
    RemoveTree { path: Seq<char> },
    Run { command: Seq<char>, cwd: Option<Seq<char>> },
    ListDir { dir: Seq<char> },
    CopyFile { from: Seq<char>, to: Seq<char> },
    Confirm { title: Seq<char>, message: Seq<char> },
    Pause { seconds: int },
}

impl View for Request {
    type V = RequestView;

    open spec fn view(&self) -> RequestView {
        match self {
            Request::MakeDir { path } => RequestView::MakeDir { path: path@ },
            Request::PathExists { path } => RequestView::PathExists { path: path@ },
            Request::Probe { argv } => RequestView::Probe { argv: views(argv@) },
            Request::Check { argv } => RequestView::Check { argv: views(argv@) },
            Request::RemoveTree { path } => RequestView::RemoveTree { path: path@ },
            Request::Run { command, cwd } => RequestView::Run {
                command: command@,
                cwd: optional_text(*cwd),
            },
            Request::ListDir { dir } => RequestView::ListDir { dir: dir@ },
            Request::CopyFile { from, to } => RequestView::CopyFile { from: from@, to: to@ },
            Request::Confirm { title, message } => RequestView::Confirm {
                title: title@,
                message: message@,
            },
            Request::Pause { seconds } => RequestView::Pause { seconds: *seconds as int },
        }
    }
}

/// The view of an optional request.
pub open spec fn optional_request(r: Option<Request>) -> Option<RequestView> {
    match r {
        Some(request) => Some(request@),
        None => None,
    }
}

/// What the outside world reports back.
#[derive(Clone, Debug, PartialEq, Eq)]
pub enum Event {
    /// Whether the path exists.
    Exists(bool),
    /// What the probe printed, if it succeeded and printed anything.
    Probed(Option<String>),
    /// Whether the program succeeded.
    Checked(bool),
    /// A directory was made or removed; the reason where that failed.
    Filesystem(Option<String>),
    /// How the command ended.
    Ran(RunReport),
    /// The entries of the directory; none where it cannot be read.
    Listed(Vec<DirEntry>),
    /// How the copy ended.
    Copied(CopyReport),
    /// The answer, or nothing where the reply slot was abandoned.
    Confirmed(Option<bool>),
    /// The pause is over.
    Resumed,
}

/// An event over plain values.
pub enum EventView {
    Exists(bool),
    Probed(Option<Seq<char>>),
    Checked(bool),
    Filesystem(Option<Seq<char>>),
    Ran(RunReportView),
    Listed(Seq<DirEntry>),
    Copied(CopyReportView),
    Confirmed(Option<bool>),
    Resumed,
}

impl View for Event {
    type V = EventView;

    open spec fn view(&self) -> EventView {
        match self {
            Event::Exists(b) => EventView::Exists(*b),
            Event::Probed(text) => EventView::Probed(optional_text(*text)),
            Event::Checked(ok) => EventView::Checked(*ok),
            Event::Filesystem(failure) => EventView::Filesystem(optional_text(*failure)),
            Event::Ran(report) => EventView::Ran(report@),
            Event::Listed(entries) => EventView::Listed(entries@),
            Event::Copied(report) => EventView::Copied(report@),
            Event::Confirmed(answer) => EventView::Confirmed(*answer),
            Event::Resumed => EventView::Resumed,
        }
    }
}

/// The answer that a confirmation resolves to: the reply, or no where the
/// reply slot was abandoned without one.
pub fn resolve_confirmation(reply: Option<bool>) -> (answer: bool)
    ensures
        answer == (reply == Some(true)),
        reply is None ==> !answer,
{
    match reply {
        Some(answer) => answer,
        None => false,
    }
}

/// A log message with the given text.
pub fn log(text: &str) -> (m: AppMessage)
    ensures
        m@ == MessageView::Log(text@),
{
    AppMessage::Log(String::from_str(text))
}

} // verus!
