//! Source synchronisation: making a working directory hold exactly the
//! requested revision.
//!
//! A checkout that is already at the requested tag is left alone. One at
//! another tag is removed and cloned afresh, never patched in place. A tag
//! that could harm a shell is refused before anything is asked of the
//! outside world.

use crate::compiler::{shell_quote, shell_quoted, valid_tag, validate_version_tag};
use crate::errors::{ErrorView, Exit, PipelineError};
use crate::messages::{
    message_views, optional_request, AppMessage, Event, EventView, MessageView, Request,
    RequestView,
};
use crate::process::{command_banner, command_outcome, outcome_of, RunReportView};
use crate::text::views;
use vstd::prelude::*;
use vstd::string::*;

verus! {

/// Where a synchronisation stands.
#[derive(Clone, Debug, PartialEq, Eq)]
pub enum SyncPhase {
    /// Asking whether the target directory exists.
    CheckExists,
    /// Asking which tag the existing checkout is at.
    QueryTag,
    /// Removing a checkout that is at another tag.
    Remove,
    /// Cloning the requested tag.
    Clone,
    /// The target directory holds the requested tag.
    Synced,
    /// The synchronisation failed.
    Failed(PipelineError),
}

/// A phase over plain values.
pub enum SyncPhaseView {
    CheckExists,
    QueryTag,
    Remove,
    Clone,
    Synced,
    Failed(ErrorView),
}

impl View for SyncPhase {
    type V = SyncPhaseView;

    open spec fn view(&self) -> SyncPhaseView {
        match self {
            SyncPhase::CheckExists => SyncPhaseView::CheckExists,
            SyncPhase::QueryTag => SyncPhaseView::QueryTag,
            SyncPhase::Remove => SyncPhaseView::Remove,
            SyncPhase::Clone => SyncPhaseView::Clone,
            SyncPhase::Synced => SyncPhaseView::Synced,
            SyncPhase::Failed(e) => SyncPhaseView::Failed(e@),
        }
    }
}

/// The synchronisation of one working directory with one tag.
#[derive(Clone, Debug, PartialEq, Eq)]
pub struct SourceSync {
    pub target_dir: String,
    pub build_root: String,
    pub tag: String,
    pub repo_url: String,
    pub phase: SyncPhase,
}

/// A synchronisation over plain values.
pub struct SyncView {
    pub target_dir: Seq<char>,
    pub build_root: Seq<char>,
    pub tag: Seq<char>,
    pub repo_url: Seq<char>,
    pub phase: SyncPhaseView,
}

impl View for SourceSync {
    type V = SyncView;

    open spec fn view(&self) -> SyncView {
        SyncView {
            target_dir: self.target_dir@,
            build_root: self.build_root@,
            tag: self.tag@,
            repo_url: self.repo_url@,
            phase: self.phase@,
        }
    }
}

/// What is said of a failed clone.
pub const CLONE_CONTEXT: &'static str = "git clone failed";

/// The query for the tag that a checkout is at.
pub open spec fn describe_argv(dir: Seq<char>) -> Seq<Seq<char>> {
    seq!["git"@, "-C"@, dir, "describe"@, "--tags"@, "--exact-match"@]
}

/// The shallow clone of one tag into a directory. The clone is complete:
/// a partial clone would fetch objects later, during the build, unseen.
pub open spec fn clone_command(tag: Seq<char>, url: Seq<char>, dir: Seq<char>) -> Seq<char> {
    "git clone --progress --depth 1 --branch "@ + shell_quoted(tag) + " "@ + shell_quoted(url)
        + " "@ + shell_quoted(dir)
}

/// The announcement of a clone.
pub open spec fn cloning_notice(url: Seq<char>, tag: Seq<char>) -> Seq<char> {
    "\nCloning "@ + url + " at "@ + tag + " (shallow clone, this may take a few minutes)\n"@
}

/// The note that a checkout is kept.
pub open spec fn kept_notice(tag: Seq<char>, dir: Seq<char>) -> Seq<char> {
    "Source already at "@ + tag + ": "@ + dir + "\n"@
}

/// The note that a checkout is replaced.
pub open spec fn replace_notice(current: Seq<char>, tag: Seq<char>) -> Seq<char> {
    "Existing clone is at '"@ + current + "', need '"@ + tag + "'. Re-cloning...\n"@
}

/// The note that a clone is done.
pub open spec fn cloned_notice(dir: Seq<char>) -> Seq<char> {
    "Cloned to "@ + dir + "\n"@
}

/// What is said of a removal that failed.
pub open spec fn remove_context(dir: Seq<char>) -> Seq<char> {
    "Failed to remove "@ + dir
}

/// The tag that a probe found, or the empty text.
pub open spec fn found_tag(probed: Option<Seq<char>>) -> Seq<char> {
    match probed {
        Some(t) => t,
        None => Seq::empty(),
    }
}

/// The state in which a synchronisation starts: failed, for a tag that may
/// not reach a shell; else about to look at the target directory.
pub open spec fn sync_start(
    target_dir: Seq<char>,
    build_root: Seq<char>,
    tag: Seq<char>,
    repo_url: Seq<char>,
) -> SyncView {
    SyncView {
        target_dir,
        build_root,
        tag,
        repo_url,
        phase: if valid_tag(tag) {
            SyncPhaseView::CheckExists
        } else {
            SyncPhaseView::Failed(ErrorView::InvalidTag { tag })
        },
    }
}

/// The clone command of a synchronisation.
pub open spec fn sync_clone_command(v: SyncView) -> Seq<char> {
    clone_command(v.tag, v.repo_url, v.target_dir)
}

/// What a synchronisation asks for next; nothing once it is over.
pub open spec fn sync_request(v: SyncView) -> Option<RequestView> {
    match v.phase {
        SyncPhaseView::CheckExists => Some(RequestView::PathExists { path: v.target_dir }),
        SyncPhaseView::QueryTag => Some(RequestView::Probe { argv: describe_argv(v.target_dir) }),
        SyncPhaseView::Remove => Some(RequestView::RemoveTree { path: v.target_dir }),
        SyncPhaseView::Clone => Some(
            RequestView::Run { command: sync_clone_command(v), cwd: Some(v.build_root) },
        ),
        SyncPhaseView::Synced => None,
        SyncPhaseView::Failed(_) => None,
    }
}

/// How a synchronisation ended; nothing while it is under way.
pub open spec fn sync_outcome(v: SyncView) -> Option<Result<(), ErrorView>> {
    match v.phase {
        SyncPhaseView::Synced => Some(Ok(())),
        SyncPhaseView::Failed(e) => Some(Err(e)),
        _ => None,
    }
}

/// The phase after an event. An event that does not answer the outstanding
/// request changes nothing, and nothing changes a synchronisation that is over.
pub open spec fn sync_next_phase(v: SyncView, event: EventView) -> SyncPhaseView {
    match (v.phase, event) {
        (SyncPhaseView::CheckExists, EventView::Exists(true)) => SyncPhaseView::QueryTag,
        (SyncPhaseView::CheckExists, EventView::Exists(false)) => SyncPhaseView::Clone,
        (SyncPhaseView::QueryTag, EventView::Probed(probed)) => if found_tag(probed) == v.tag {
            SyncPhaseView::Synced
        } else {
            SyncPhaseView::Remove
        },
        (SyncPhaseView::Remove, EventView::Filesystem(None)) => SyncPhaseView::Clone,
        (SyncPhaseView::Remove, EventView::Filesystem(Some(reason))) => SyncPhaseView::Failed(
            ErrorView::Filesystem { context: remove_context(v.target_dir), reason },
        ),
        (SyncPhaseView::Clone, EventView::Ran(report)) => match outcome_of(
            CLONE_CONTEXT@,
            sync_clone_command(v),
            report,
        ) {
            Ok(()) => SyncPhaseView::Synced,
            Err(e) => SyncPhaseView::Failed(e),
        },
        (phase, _) => phase,
    }
}

/// The synchronisation after an event.
pub open spec fn sync_next(v: SyncView, event: EventView) -> SyncView {
    SyncView { phase: sync_next_phase(v, event), ..v }
}

/// What is said when a clone is about to run.
pub open spec fn clone_narration(v: SyncView) -> Seq<MessageView> {
    seq![
        MessageView::Log(cloning_notice(v.repo_url, v.tag)),
        MessageView::Log("\n$ "@ + sync_clone_command(v) + "\n"@),
    ]
}

/// What a synchronisation says on an event.
pub open spec fn sync_narration(v: SyncView, event: EventView) -> Seq<MessageView> {
    match (v.phase, event) {
        (SyncPhaseView::CheckExists, EventView::Exists(false)) => clone_narration(v),
        (SyncPhaseView::QueryTag, EventView::Probed(probed)) => if found_tag(probed) == v.tag {
            seq![MessageView::Log(kept_notice(v.tag, v.target_dir))]
        } else {
            seq![MessageView::Log(replace_notice(found_tag(probed), v.tag))]
        },
        (SyncPhaseView::Remove, EventView::Filesystem(None)) => clone_narration(v),
        (SyncPhaseView::Clone, EventView::Ran(report)) => if report == RunReportView::Finished(
            Exit::Code(0),
        ) {
            seq![MessageView::Log(cloned_notice(v.target_dir))]
        } else {
            Seq::empty()
        },
        _ => Seq::empty(),
    }
}

/// The view of the outcome of a synchronisation.
pub open spec fn optional_unit_result(r: Option<Result<(), PipelineError>>) -> Option<
    Result<(), ErrorView>,
> {
    match r {
        Some(Ok(())) => Some(Ok(())),
        Some(Err(e)) => Some(Err(e@)),
        None => None,
    }
}

impl SourceSync {
    /// A synchronisation of `target_dir` with `tag` of the repository at
    /// `repo_url`; commands run in `build_root`.
    pub fn new(target_dir: &str, build_root: &str, tag: &str, repo_url: &str) -> (sync: SourceSync)
        ensures
            sync@ == sync_start(target_dir@, build_root@, tag@, repo_url@),
    {
        let phase = match validate_version_tag(tag) {
            Ok(()) => SyncPhase::CheckExists,
            Err(e) => SyncPhase::Failed(e),
        };
        SourceSync {
            target_dir: String::from_str(target_dir),
            build_root: String::from_str(build_root),
            tag: String::from_str(tag),
            repo_url: String::from_str(repo_url),
            phase,
        }
    }

    /// The command that clones the requested tag.
    pub fn clone_command(&self) -> (command: String)
        ensures
            command@ == sync_clone_command(self@),
    {
        let mut command = String::from_str("git clone --progress --depth 1 --branch ");
        command.append(shell_quote(self.tag.as_str()).as_str());
        command.append(" ");
        command.append(shell_quote(self.repo_url.as_str()).as_str());
        command.append(" ");
        command.append(shell_quote(self.target_dir.as_str()).as_str());
        command
    }

    /// What to do next; nothing once the synchronisation is over.
    pub fn request(&self) -> (request: Option<Request>)
        ensures
            optional_request(request) == sync_request(self@),
    {
        match &self.phase {
            SyncPhase::CheckExists => Some(Request::PathExists { path: self.target_dir.clone() }),
            SyncPhase::QueryTag => {
                let mut argv: Vec<String> = Vec::new();
                argv.push(String::from_str("git"));
                argv.push(String::from_str("-C"));
                argv.push(self.target_dir.clone());
                argv.push(String::from_str("describe"));
                argv.push(String::from_str("--tags"));
                argv.push(String::from_str("--exact-match"));
                assert(views(argv@) =~= describe_argv(self.target_dir@));
                Some(Request::Probe { argv })
            },
            SyncPhase::Remove => Some(Request::RemoveTree { path: self.target_dir.clone() }),
            SyncPhase::Clone => Some(
                Request::Run { command: self.clone_command(), cwd: Some(self.build_root.clone()) },
            ),
            SyncPhase::Synced => None,
            SyncPhase::Failed(_) => None,
        }
    }

    /// How the synchronisation ended; nothing while it is under way.
    pub fn outcome(&self) -> (outcome: Option<Result<(), PipelineError>>)
        ensures
            optional_unit_result(outcome) == sync_outcome(self@),
    {
        match &self.phase {
            SyncPhase::Synced => Some(Ok(())),
            SyncPhase::Failed(e) => Some(Err(e.duplicate())),
            _ => None,
        }
    }

    fn clone_messages(&self) -> (messages: Vec<AppMessage>)
        ensures
            message_views(messages@) == clone_narration(self@),
    {
        let mut notice = String::from_str("\nCloning ");
        notice.append(self.repo_url.as_str());
        notice.append(" at ");
        notice.append(self.tag.as_str());
        notice.append(" (shallow clone, this may take a few minutes)\n");
        let mut messages: Vec<AppMessage> = Vec::new();
        messages.push(AppMessage::Log(notice));
        messages.push(AppMessage::Log(command_banner(self.clone_command().as_str())));
        assert(message_views(messages@) =~= clone_narration(self@));
        messages
    }

    /// Takes in what the outside world reported and says what the observer
    /// should hear of it.
    pub fn advance(&mut self, event: &Event) -> (messages: Vec<AppMessage>)
        ensures
            final(self)@ == sync_next(old(self)@, event@),
            message_views(messages@) == sync_narration(old(self)@, event@),
    {
        let mut messages: Vec<AppMessage> = Vec::new();
        assert(message_views(messages@) =~= Seq::<MessageView>::empty());
        match (&self.phase, event) {
            (SyncPhase::CheckExists, Event::Exists(exists)) => {
                if *exists {
                    self.phase = SyncPhase::QueryTag;
                } else {
                    messages = self.clone_messages();
                    self.phase = SyncPhase::Clone;
                }
            },
            (SyncPhase::QueryTag, Event::Probed(probed)) => {
                let current = match probed {
                    Some(t) => t.clone(),
                    None => String::new(),
                };
                if current == self.tag {
                    let mut note = String::from_str("Source already at ");
                    note.append(self.tag.as_str());
                    note.append(": ");
                    note.append(self.target_dir.as_str());
                    note.append("\n");
                    messages.push(AppMessage::Log(note));
                    assert(message_views(messages@) =~= seq![
                        MessageView::Log(kept_notice(self.tag@, self.target_dir@)),
                    ]);
                    self.phase = SyncPhase::Synced;
                } else {
                    let mut note = String::from_str("Existing clone is at '");
                    note.append(current.as_str());
                    note.append("', need '");
                    note.append(self.tag.as_str());
                    note.append("'. Re-cloning...\n");
                    messages.push(AppMessage::Log(note));
                    assert(message_views(messages@) =~= seq![
                        MessageView::Log(replace_notice(current@, self.tag@)),
                    ]);
                    self.phase = SyncPhase::Remove;
                }
            },
            (SyncPhase::Remove, Event::Filesystem(failure)) => {
                match failure {
                    None => {
                        messages = self.clone_messages();
                        self.phase = SyncPhase::Clone;
                    },
                    Some(reason) => {
                        let mut context = String::from_str("Failed to remove ");
                        context.append(self.target_dir.as_str());
                        self.phase = SyncPhase::Failed(
                            PipelineError::Filesystem { context, reason: reason.clone() },
                        );
                    },
                }
            },
            (SyncPhase::Clone, Event::Ran(report)) => {
                let command = self.clone_command();
                match command_outcome(CLONE_CONTEXT, command.as_str(), report) {
                    Ok(()) => {
                        let mut note = String::from_str("Cloned to ");
                        note.append(self.target_dir.as_str());
                        note.append("\n");
                        messages.push(AppMessage::Log(note));
                        assert(message_views(messages@) =~= seq![
                            MessageView::Log(cloned_notice(self.target_dir@)),
                        ]);
                        self.phase = SyncPhase::Synced;
                    },
                    Err(e) => {
                        self.phase = SyncPhase::Failed(e);
                    },
                }
            },
            _ => {},
        }
        messages
    }
}

/// The state after a run of events, taken in order.
pub open spec fn sync_after(v: SyncView, events: Seq<EventView>) -> SyncView
    decreases events.len(),
{
    if events.len() == 0 {
        v
    } else {
        sync_next(sync_after(v, events.drop_last()), events.last())
    }
}

/// What a well-behaved world answers to the outstanding request of a
/// synchronisation, and what the target directory then holds. `checkout`
/// is the tag that the directory is at, or nothing where there is no
/// directory: the directory exists if it holds a checkout, a query finds
/// the tag, a removal leaves no directory, and a clone leaves the requested tag.
pub open spec fn world_answer(checkout: Option<Seq<char>>, v: SyncView) -> (
    Option<Seq<char>>,
    EventView,
) {
    match v.phase {
        SyncPhaseView::CheckExists => (checkout, EventView::Exists(checkout is Some)),
        SyncPhaseView::QueryTag => (checkout, EventView::Probed(checkout)),
        SyncPhaseView::Remove => (None, EventView::Filesystem(None)),
        SyncPhaseView::Clone => (
            Some(v.tag),
            EventView::Ran(RunReportView::Finished(Exit::Code(0))),
        ),
        _ => (checkout, EventView::Resumed),
    }
}

/// A synchronisation played against a well-behaved world for `steps`
/// rounds: what the directory holds in the end, the final state, and the
/// requests that were made, in order.
pub open spec fn played(checkout: Option<Seq<char>>, v: SyncView, steps: nat) -> (
    Option<Seq<char>>,
    SyncView,
    Seq<RequestView>,
)
    decreases steps,
{
    if steps == 0 {
        (checkout, v, Seq::empty())
    } else {
        match sync_request(v) {
            None => (checkout, v, Seq::empty()),
            Some(request) => {
                let (held, event) = world_answer(checkout, v);
                let (end, last, asked) = played(held, sync_next(v, event), (steps - 1) as nat);
                (end, last, seq![request] + asked)
            },
        }
    }
}

/// Whether the request reaches over the network or destroys anything.
pub open spec fn is_clone_or_removal(r: RequestView) -> bool {
    r is Run || r is RemoveTree
}

/// A tag that may not reach a shell fails the synchronisation at once:
/// whatever is reported afterwards, it asks for nothing and stays failed
/// with that tag as the reason.
pub proof fn lemma_invalid_tag_asks_nothing(
    target_dir: Seq<char>,
    build_root: Seq<char>,
    tag: Seq<char>,
    repo_url: Seq<char>,
    events: Seq<EventView>,
)
    requires
        !valid_tag(tag),
    ensures
        sync_request(sync_after(sync_start(target_dir, build_root, tag, repo_url), events)) is None,
        sync_outcome(sync_after(sync_start(target_dir, build_root, tag, repo_url), events))
            == Some(Err::<(), ErrorView>(ErrorView::InvalidTag { tag })),
    decreases events.len(),
{
    let start = sync_start(target_dir, build_root, tag, repo_url);
    if events.len() > 0 {
        lemma_invalid_tag_asks_nothing(target_dir, build_root, tag, repo_url, events.drop_last());
        let before = sync_after(start, events.drop_last());
        assert(before.phase == SyncPhaseView::Failed(ErrorView::InvalidTag { tag }));
    }
}

/// A synchronisation that is over stays as it is, whatever is reported.
pub proof fn lemma_finished_is_final(v: SyncView, event: EventView)
    requires
        sync_request(v) is None,
    ensures
        sync_next(v, event) == v,
        sync_narration(v, event).len() == 0,
{
}

/// A synchronisation asks for something exactly as long as it has no outcome.
pub proof fn lemma_request_or_outcome(v: SyncView)
    ensures
        sync_request(v) is None <==> sync_outcome(v) is Some,
{
}

/// Synchronising twice with the same tag clones once. With no directory
/// to begin with, the first run asks whether the directory exists and then
/// clones; the second run finds the tag in place and neither clones nor
/// removes anything.
pub proof fn lemma_sync_is_idempotent(
    target_dir: Seq<char>,
    build_root: Seq<char>,
    tag: Seq<char>,
    repo_url: Seq<char>,
)
    requires
        valid_tag(tag),
    ensures
        ({
            let start = sync_start(target_dir, build_root, tag, repo_url);
            let first = played(None, start, 4);
            let second = played(first.0, start, 4);
            &&& first.0 == Some(tag)
            &&& sync_outcome(first.1) == Some(Ok::<(), ErrorView>(()))
            &&& first.2 == seq![
                RequestView::PathExists { path: target_dir },
                RequestView::Run {
                    command: clone_command(tag, repo_url, target_dir),
                    cwd: Some(build_root),
                },
            ]
            &&& second.0 == Some(tag)
            &&& sync_outcome(second.1) == Some(Ok::<(), ErrorView>(()))
            &&& second.2 == seq![
                RequestView::PathExists { path: target_dir },
                RequestView::Probe { argv: describe_argv(target_dir) },
            ]
            &&& forall|i: int| 0 <= i < second.2.len() ==> !is_clone_or_removal(second.2[i])
        }),
{
    reveal_with_fuel(played, 5);
    let start = sync_start(target_dir, build_root, tag, repo_url);
    let first = played(None, start, 4);
    assert(first.2 =~= seq![
        RequestView::PathExists { path: target_dir },
        RequestView::Run {
            command: clone_command(tag, repo_url, target_dir),
            cwd: Some(build_root),
        },
    ]);
    let second = played(first.0, start, 4);
    assert(second.2 =~= seq![
        RequestView::PathExists { path: target_dir },
        RequestView::Probe { argv: describe_argv(target_dir) },
    ]);
}

/// A checkout at another tag is replaced: the directory is looked at,
/// queried, removed once and cloned once at the requested tag, in that
/// order, and then holds the requested tag.
pub proof fn lemma_mismatch_is_replaced(
    target_dir: Seq<char>,
    build_root: Seq<char>,
    held: Seq<char>,
    tag: Seq<char>,
    repo_url: Seq<char>,
)
    requires
        valid_tag(tag),
        held != tag,
    ensures
        ({
            let run = played(Some(held), sync_start(target_dir, build_root, tag, repo_url), 4);
            &&& run.0 == Some(tag)
            &&& sync_outcome(run.1) == Some(Ok::<(), ErrorView>(()))
            &&& run.2 == seq![
                RequestView::PathExists { path: target_dir },
                RequestView::Probe { argv: describe_argv(target_dir) },
                RequestView::RemoveTree { path: target_dir },
                RequestView::Run {
                    command: clone_command(tag, repo_url, target_dir),
                    cwd: Some(build_root),
                },
            ]
        }),
{
    reveal_with_fuel(played, 5);
    let run = played(Some(held), sync_start(target_dir, build_root, tag, repo_url), 4);
    assert(run.2 =~= seq![
        RequestView::PathExists { path: target_dir },
        RequestView::Probe { argv: describe_argv(target_dir) },
        RequestView::RemoveTree { path: target_dir },
        RequestView::Run {
            command: clone_command(tag, repo_url, target_dir),
            cwd: Some(build_root),
        },
    ]);
}

} // verus!
