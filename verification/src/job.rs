//! A whole compilation task: one project or both in turn, with every
//! failure reported and the end of the task announced exactly once.

use crate::compiler::Project;
use crate::errors::{description, ErrorView, PipelineError};
use crate::messages::{
    message_views, optional_request, AppMessage, Event, EventView, MessageView, Request,
    RequestView,
};
use crate::pipeline::{
    append_messages, lemma_pipeline_request_or_outcome, lemma_pipeline_step, lemma_start_is_sound,
    opening_of, pipeline_inv, pipeline_narration, pipeline_next, pipeline_outcome,
    pipeline_request, pipeline_start, BuildPipeline, PipelineView,
};
use crate::text::{join, join_strings, views};
use crate::ui::LOADING_ENTRY;
use vstd::prelude::*;
use vstd::string::*;

verus! {

/// What to compile.
#[derive(Clone, Copy, Debug, PartialEq, Eq, Structural)]
pub enum Target {
    Bitcoin,
    Electrs,
    Both,
}

/// A compilation task.
#[derive(Clone, Debug, PartialEq, Eq)]
pub struct CompileJob {
    pub target: Target,
    /// Whether a second project is still built after the first has failed.
    pub keep_going: bool,
    pub runs: Vec<BuildPipeline>,
    pub current: usize,
    pub outputs: Vec<String>,
    pub failed: bool,
}

/// A compilation task over plain values.
pub struct JobView {
    pub target: Target,
    pub keep_going: bool,
    pub runs: Seq<PipelineView>,
    pub current: int,
    pub outputs: Seq<Seq<char>>,
    pub failed: bool,
}

/// The views of a sequence of pipelines.
pub open spec fn pipeline_views(v: Seq<BuildPipeline>) -> Seq<PipelineView> {
    v.map_values(|p: BuildPipeline| p@)
}

impl View for CompileJob {
    type V = JobView;

    open spec fn view(&self) -> JobView {
        JobView {
            target: self.target,
            keep_going: self.keep_going,
            runs: pipeline_views(self.runs@),
            current: self.current as int,
            outputs: views(self.outputs@),
            failed: self.failed,
        }
    }
}

/// Whether a version has been chosen: it is neither empty nor the entry
/// that stands for a list still being fetched.
pub open spec fn version_chosen(version: Seq<char>) -> bool {
    version.len() > 0 && version != LOADING_ENTRY@
}

/// Whether the target takes in the project.
pub open spec fn includes(target: Target, project: Project) -> bool {
    match (target, project) {
        (Target::Both, _) => true,
        (Target::Bitcoin, Project::Bitcoin) => true,
        (Target::Electrs, Project::Electrs) => true,
        _ => false,
    }
}

/// Why a task cannot start, if it cannot: a project of the target has no
/// version chosen. The first project is looked at first.
pub open spec fn refusal(target: Target, bitcoin_version: Seq<char>, electrs_version: Seq<char>) -> Option<
    Seq<char>,
> {
    if includes(target, Project::Bitcoin) && !version_chosen(bitcoin_version) {
        Some("Please wait for Bitcoin versions to load, or click Refresh"@)
    } else if includes(target, Project::Electrs) && !version_chosen(electrs_version) {
        Some("Please wait for Electrs versions to load, or click Refresh"@)
    } else {
        None
    }
}

/// The pipelines of a target, in the order in which they run.
pub open spec fn runs_of(
    target: Target,
    bitcoin_version: Seq<char>,
    electrs_version: Seq<char>,
    build_root: Seq<char>,
    cores: nat,
) -> Seq<PipelineView> {
    (if includes(target, Project::Bitcoin) {
        seq![pipeline_start(Project::Bitcoin, bitcoin_version, build_root, cores)]
    } else {
        Seq::empty()
    }) + (if includes(target, Project::Electrs) {
        seq![pipeline_start(Project::Electrs, electrs_version, build_root, cores)]
    } else {
        Seq::empty()
    })
}

/// The state in which a task starts.
pub open spec fn job_start(
    target: Target,
    keep_going: bool,
    bitcoin_version: Seq<char>,
    electrs_version: Seq<char>,
    build_root: Seq<char>,
    cores: nat,
) -> JobView {
    JobView {
        target,
        keep_going,
        runs: runs_of(target, bitcoin_version, electrs_version, build_root, cores),
        current: 0,
        outputs: Seq::empty(),
        failed: false,
    }
}

/// Whether the task is over.
pub open spec fn job_done(v: JobView) -> bool {
    !(0 <= v.current < v.runs.len())
}

/// What a task asks for next; nothing once it is over.
pub open spec fn job_request(v: JobView) -> Option<RequestView> {
    if job_done(v) {
        None
    } else {
        pipeline_request(v.runs[v.current])
    }
}

/// The progress of a run within the whole task. A run on its own fills
/// the whole scale; of two runs, the first fills the lower half and the
/// second the upper half.
pub open spec fn scaled_progress(percent: int, index: int, count: int) -> int {
    if count == 2 && 0 <= index < 2 {
        (index * 100 + percent) / 2
    } else {
        percent
    }
}

/// A message of a run as the task passes it on.
pub open spec fn scaled_message(m: MessageView, index: int, count: int) -> MessageView {
    match m {
        MessageView::Progress(percent) => MessageView::Progress(
            scaled_progress(percent, index, count),
        ),
        other => other,
    }
}

/// The messages of a run as the task passes them on.
pub open spec fn scaled_messages(messages: Seq<MessageView>, index: int, count: int) -> Seq<
    MessageView,
> {
    messages.map_values(|m: MessageView| scaled_message(m, index, count))
}

/// The name of a target in messages.
pub open spec fn target_name(target: Target) -> Seq<char> {
    match target {
        Target::Bitcoin => "Bitcoin"@,
        Target::Electrs => "Electrs"@,
        Target::Both => "Both"@,
    }
}

/// How a failure is reported: a line in the log and a notice marked as an
/// error, both with the description of the failure.
pub open spec fn failure_report(e: ErrorView) -> Seq<MessageView> {
    seq![
        MessageView::Log("\nCompilation failed: "@ + description(e) + "\n"@),
        MessageView::ShowDialog {
            title: "Compilation Failed"@,
            message: description(e),
            is_error: true,
        },
    ]
}

/// How a task that never failed is rounded off.
pub open spec fn success_report(target: Target, outputs: Seq<Seq<char>>) -> Seq<MessageView> {
    seq![
        MessageView::Progress(100),
        MessageView::ShowDialog {
            title: "Compilation Complete"@,
            message: target_name(target)
                + " compilation completed successfully!\n\nBinaries saved to:\n"@ + join(
                outputs,
                "\n"@,
            ),
            is_error: false,
        },
    ]
}

/// What is said when a task has moved past a run: the headline of the next
/// run, or the end of the task.
pub open spec fn handover(next: JobView) -> Seq<MessageView> {
    if job_done(next) {
        (if next.failed {
            Seq::empty()
        } else {
            success_report(next.target, next.outputs)
        }) + seq![MessageView::TaskDone]
    } else {
        opening_of(next.runs[next.current])
    }
}

/// The task after an event.
pub open spec fn job_next(v: JobView, event: EventView) -> JobView {
    if job_done(v) {
        v
    } else {
        let run = pipeline_next(v.runs[v.current], event);
        let runs = v.runs.update(v.current, run);
        match pipeline_outcome(run) {
            None => JobView { runs, ..v },
            Some(Ok(dir)) => JobView {
                runs,
                outputs: v.outputs.push(dir),
                current: v.current + 1,
                ..v
            },
            Some(Err(_)) => JobView {
                runs,
                failed: true,
                current: if v.keep_going {
                    v.current + 1
                } else {
                    v.runs.len() as int
                },
                ..v
            },
        }
    }
}

/// What a task says on an event.
pub open spec fn job_narration(v: JobView, event: EventView) -> Seq<MessageView> {
    if job_done(v) {
        Seq::empty()
    } else {
        let passed_on = scaled_messages(
            pipeline_narration(v.runs[v.current], event),
            v.current,
            v.runs.len() as int,
        );
        match pipeline_outcome(pipeline_next(v.runs[v.current], event)) {
            None => passed_on,
            Some(Ok(_)) => passed_on + handover(job_next(v, event)),
            Some(Err(e)) => passed_on + failure_report(e) + handover(job_next(v, event)),
        }
    }
}

/// What is said when a task starts.
pub open spec fn job_opening(v: JobView) -> Seq<MessageView> {
    if job_done(v) {
        seq![MessageView::TaskDone]
    } else {
        seq![MessageView::Progress(5)] + opening_of(v.runs[v.current])
    }
}

/// The view of an attempt to start a task.
pub open spec fn start_view(r: Result<CompileJob, String>) -> Result<JobView, Seq<char>> {
    match r {
        Ok(job) => Ok(job@),
        Err(reason) => Err(reason@),
    }
}

/// Whether a version has been chosen.
pub fn is_version_chosen(version: &str) -> (b: bool)
    ensures
        b == version_chosen(version@),
{
    let loading = String::from_str(LOADING_ENTRY);
    let given = String::from_str(version);
    !version.is_empty() && !(given == loading)
}

fn scale(percent: u8, index: usize, count: usize) -> (scaled: u8)
    ensures
        scaled == scaled_progress(percent as int, index as int, count as int),
{
    if index < count && count == 2 {
        let sum: u32 = (index as u32) * 100 + percent as u32;
        (sum / 2) as u8
    } else {
        percent
    }
}

fn scale_messages(messages: Vec<AppMessage>, index: usize, count: usize) -> (scaled: Vec<
    AppMessage,
>)
    ensures
        message_views(scaled@) == scaled_messages(
            message_views(messages@),
            index as int,
            count as int,
        ),
{
    let mut messages = messages;
    let ghost given = message_views(messages@);
    let mut i: usize = 0;
    while i < messages.len()
        invariant
            i <= messages.len(),
            messages@.len() == given.len(),
            forall|k: int|
                0 <= k < i ==> (#[trigger] messages@[k])@ == scaled_message(
                    given[k],
                    index as int,
                    count as int,
                ),
            forall|k: int| i <= k < messages@.len() ==> (#[trigger] messages@[k])@ == given[k],
        decreases messages.len() - i,
    {
        let replacement = match &messages[i] {
            AppMessage::Progress(percent) => Some(AppMessage::Progress(scale(*percent, index, count))),
            _ => None,
        };
        match replacement {
            Some(m) => {
                messages.set(i, m);
            },
            None => {},
        }
        i += 1;
    }
    assert(message_views(messages@) =~= scaled_messages(given, index as int, count as int));
    messages
}

impl CompileJob {
    /// Starts a task, or says why it cannot start. A project of the target
    /// whose version has not been chosen stops the task before it begins.
    pub fn new(
        target: Target,
        keep_going: bool,
        bitcoin_version: &str,
        electrs_version: &str,
        build_root: &str,
        cores: usize,
    ) -> (result: Result<CompileJob, String>)
        ensures
            start_view(result) == match refusal(target, bitcoin_version@, electrs_version@) {
                Some(reason) => Err::<JobView, Seq<char>>(reason),
                None => Ok(
                    job_start(
                        target,
                        keep_going,
                        bitcoin_version@,
                        electrs_version@,
                        build_root@,
                        cores as nat,
                    ),
                ),
            },
    {
        let with_bitcoin = match target {
            Target::Bitcoin => true,
            Target::Both => true,
            Target::Electrs => false,
        };
        let with_electrs = match target {
            Target::Electrs => true,
            Target::Both => true,
            Target::Bitcoin => false,
        };
        if with_bitcoin && !is_version_chosen(bitcoin_version) {
            return Err(
                String::from_str("Please wait for Bitcoin versions to load, or click Refresh"),
            );
        }
        if with_electrs && !is_version_chosen(electrs_version) {
            return Err(
                String::from_str("Please wait for Electrs versions to load, or click Refresh"),
            );
        }
        let mut runs: Vec<BuildPipeline> = Vec::new();
        if with_bitcoin {
            runs.push(BuildPipeline::new(Project::Bitcoin, bitcoin_version, build_root, cores));
        }
        if with_electrs {
            runs.push(BuildPipeline::new(Project::Electrs, electrs_version, build_root, cores));
        }
        assert(pipeline_views(runs@) =~= runs_of(
            target,
            bitcoin_version@,
            electrs_version@,
            build_root@,
            cores as nat,
        ));
        let outputs: Vec<String> = Vec::new();
        assert(views(outputs@) =~= Seq::<Seq<char>>::empty());
        Ok(CompileJob { target, keep_going, runs, current: 0, outputs, failed: false })
    }

    /// Whether the task is over.
    pub fn is_done(&self) -> (done: bool)
        ensures
            done == job_done(self@),
    {
        self.current >= self.runs.len()
    }

    /// What is said when the task starts.
    pub fn opening(&self) -> (messages: Vec<AppMessage>)
        ensures
            message_views(messages@) == job_opening(self@),
    {
        let mut messages: Vec<AppMessage> = Vec::new();
        if self.current >= self.runs.len() {
            messages.push(AppMessage::TaskDone);
            assert(message_views(messages@) =~= seq![MessageView::TaskDone]);
        } else {
            messages.push(AppMessage::Progress(5));
            assert(message_views(messages@) =~= seq![MessageView::Progress(5)]);
            append_messages(&mut messages, self.runs[self.current].opening());
        }
        messages
    }

    /// What to do next; nothing once the task is over.
    pub fn request(&self) -> (request: Option<Request>)
        ensures
            optional_request(request) == job_request(self@),
    {
        if self.current >= self.runs.len() {
            None
        } else {
            self.runs[self.current].request()
        }
    }

    fn target_text(&self) -> (name: String)
        ensures
            name@ == target_name(self.target),
    {
        match self.target {
            Target::Bitcoin => String::from_str("Bitcoin"),
            Target::Electrs => String::from_str("Electrs"),
            Target::Both => String::from_str("Both"),
        }
    }

    fn handover_messages(&self) -> (messages: Vec<AppMessage>)
        ensures
            message_views(messages@) == handover(self@),
    {
        let mut messages: Vec<AppMessage> = Vec::new();
        if self.current >= self.runs.len() {
            if !self.failed {
                let mut text = self.target_text();
                text.append(" compilation completed successfully!\n\nBinaries saved to:\n");
                text.append(join_strings(&self.outputs, "\n").as_str());
                messages.push(AppMessage::Progress(100));
                messages.push(
                    AppMessage::ShowDialog {
                        title: String::from_str("Compilation Complete"),
                        message: text,
                        is_error: false,
                    },
                );
                assert(message_views(messages@) =~= success_report(self@.target, self@.outputs));
            } else {
                assert(message_views(messages@) =~= Seq::<MessageView>::empty());
            }
            let ghost said = message_views(messages@);
            messages.push(AppMessage::TaskDone);
            assert(message_views(messages@) =~= said + seq![MessageView::TaskDone]);
            messages
        } else {
            self.runs[self.current].opening()
        }
    }

    fn failure_messages(e: &PipelineError) -> (messages: Vec<AppMessage>)
        ensures
            message_views(messages@) == failure_report(e@),
    {
        let text = e.describe();
        let mut line = String::from_str("\nCompilation failed: ");
        line.append(text.as_str());
        line.append("\n");
        let mut messages: Vec<AppMessage> = Vec::new();
        messages.push(AppMessage::Log(line));
        messages.push(
            AppMessage::ShowDialog {
                title: String::from_str("Compilation Failed"),
                message: text,
                is_error: true,
            },
        );
        assert(message_views(messages@) =~= failure_report(e@));
        messages
    }

    /// Takes in what the outside world reported and says what the observer
    /// should hear of it.
    pub fn advance(&mut self, event: &Event) -> (messages: Vec<AppMessage>)
        ensures
            final(self)@ == job_next(old(self)@, event@),
            message_views(messages@) == job_narration(old(self)@, event@),
    {
        if self.current >= self.runs.len() {
            let messages: Vec<AppMessage> = Vec::new();
            assert(message_views(messages@) =~= Seq::<MessageView>::empty());
            return messages;
        }
        let index = self.current;
        let count = self.runs.len();
        let ghost before = self@;
        let mut runs: Vec<BuildPipeline> = Vec::new();
        std::mem::swap(&mut self.runs, &mut runs);
        let mut run = runs.remove(index);
        let said = run.advance(event);
        let outcome = run.outcome();
        runs.insert(index, run);
        assert(pipeline_views(runs@) =~= before.runs.update(
            index as int,
            pipeline_next(before.runs[index as int], event@),
        ));
        self.runs = runs;
        let mut messages = scale_messages(said, index, count);
        match outcome {
            None => {},
            Some(Ok(dir)) => {
                let ghost outputs_before = views(self.outputs@);
                self.outputs.push(dir);
                assert(views(self.outputs@) =~= outputs_before.push(dir@));
                self.current = index + 1;
                append_messages(&mut messages, self.handover_messages());
            },
            Some(Err(e)) => {
                self.failed = true;
                self.current = if self.keep_going {
                    index + 1
                } else {
                    count
                };
                append_messages(&mut messages, Self::failure_messages(&e));
                append_messages(&mut messages, self.handover_messages());
            },
        }
        messages
    }
}

/// How often the end of the task is announced in the messages.
pub open spec fn announced_ends(messages: Seq<MessageView>) -> nat
    decreases messages.len(),
{
    if messages.len() == 0 {
        0
    } else {
        announced_ends(messages.drop_last()) + if messages.last() is TaskDone {
            1nat
        } else {
            0nat
        }
    }
}

/// What holds of every state that a task can reach: the run that is under
/// way, and every run still to come, is a pipeline in a state that it can
/// reach and has no outcome yet.
pub open spec fn job_inv(v: JobView) -> bool {
    &&& 0 <= v.current
    &&& forall|k: int|
        v.current <= k < v.runs.len() ==> pipeline_inv(#[trigger] v.runs[k]) && pipeline_outcome(
            v.runs[k],
        ) is None
}

/// The task after a run of events, taken in order.
pub open spec fn job_after(v: JobView, events: Seq<EventView>) -> JobView
    decreases events.len(),
{
    if events.len() == 0 {
        v
    } else {
        job_next(job_after(v, events.drop_last()), events.last())
    }
}

/// All that a task says over a run of events.
pub open spec fn job_heard(v: JobView, events: Seq<EventView>) -> Seq<MessageView>
    decreases events.len(),
{
    if events.len() == 0 {
        Seq::empty()
    } else {
        job_heard(v, events.drop_last()) + job_narration(
            job_after(v, events.drop_last()),
            events.last(),
        )
    }
}

/// The ends announced in two runs of messages add up.
pub proof fn lemma_announced_ends_add(a: Seq<MessageView>, b: Seq<MessageView>)
    ensures
        announced_ends(a + b) == announced_ends(a) + announced_ends(b),
    decreases b.len(),
{
    if b.len() == 0 {
        assert(a + b =~= a);
    } else {
        lemma_announced_ends_add(a, b.drop_last());
        assert((a + b).drop_last() =~= a + b.drop_last());
        assert((a + b).last() == b.last());
    }
}

/// Messages that announce no end count none.
pub proof fn lemma_no_end_announced(messages: Seq<MessageView>)
    requires
        forall|i: int| 0 <= i < messages.len() ==> !(#[trigger] messages[i] is TaskDone),
    ensures
        announced_ends(messages) == 0,
    decreases messages.len(),
{
    if messages.len() > 0 {
        let init = messages.drop_last();
        assert forall|i: int| 0 <= i < init.len() implies !(#[trigger] init[i] is TaskDone) by {
            assert(init[i] == messages[i]);
        }
        lemma_no_end_announced(init);
    }
}

/// A task starts in a state that it can reach.
pub proof fn lemma_job_start_is_sound(
    target: Target,
    keep_going: bool,
    bitcoin_version: Seq<char>,
    electrs_version: Seq<char>,
    build_root: Seq<char>,
    cores: nat,
)
    ensures
        job_inv(job_start(target, keep_going, bitcoin_version, electrs_version, build_root, cores)),
        !job_done(
            job_start(target, keep_going, bitcoin_version, electrs_version, build_root, cores),
        ),
        announced_ends(
            job_opening(
                job_start(target, keep_going, bitcoin_version, electrs_version, build_root, cores),
            ),
        ) == 0,
{
    lemma_start_is_sound(Project::Bitcoin, bitcoin_version, build_root, cores);
    lemma_start_is_sound(Project::Electrs, electrs_version, build_root, cores);
    let start = job_start(target, keep_going, bitcoin_version, electrs_version, build_root, cores);
    let opening = job_opening(start);
    assert forall|i: int| 0 <= i < opening.len() implies !(#[trigger] opening[i] is TaskDone) by {}
    lemma_no_end_announced(opening);
}

/// A task asks for something exactly as long as it is not over.
pub proof fn lemma_job_request_or_done(v: JobView)
    requires
        job_inv(v),
    ensures
        job_request(v) is None <==> job_done(v),
{
    if !job_done(v) {
        lemma_pipeline_request_or_outcome(v.runs[v.current]);
    }
}

/// A task that is over stays as it is and says no more.
pub proof fn lemma_job_done_is_final(v: JobView, event: EventView)
    requires
        job_done(v),
    ensures
        job_next(v, event) == v,
        job_narration(v, event).len() == 0,
{
}

/// One event keeps a task within the states that it can reach, and the
/// end of the task is announced on it exactly if the task ends on it.
pub proof fn lemma_job_step(v: JobView, event: EventView)
    requires
        job_inv(v),
        !job_done(v),
    ensures
        job_inv(job_next(v, event)),
        announced_ends(job_narration(v, event)) == if job_done(job_next(v, event)) {
            1nat
        } else {
            0nat
        },
{
    let run = v.runs[v.current];
    let next = job_next(v, event);
    lemma_pipeline_step(run, event);
    assert forall|k: int| next.current <= k < next.runs.len() implies pipeline_inv(
        #[trigger] next.runs[k],
    ) && pipeline_outcome(next.runs[k]) is None by {
        if k != v.current {
            assert(next.runs[k] == v.runs[k]);
        }
    }
    let told = pipeline_narration(run, event);
    let passed_on = scaled_messages(told, v.current, v.runs.len() as int);
    assert forall|i: int| 0 <= i < told.len() implies !(#[trigger] told[i] is TaskDone) by {
        lemma_pipeline_never_ends_the_task(run, event, i);
    }
    assert forall|i: int| 0 <= i < passed_on.len() implies !(#[trigger] passed_on[i]
        is TaskDone) by {
        assert(!(told[i] is TaskDone));
    }
    lemma_no_end_announced(passed_on);
    let closing = handover(next);
    match pipeline_outcome(pipeline_next(run, event)) {
        None => {},
        Some(Ok(_)) => {
            lemma_handover_ends(next);
            lemma_announced_ends_add(passed_on, closing);
        },
        Some(Err(e)) => {
            let report = failure_report(e);
            assert forall|i: int| 0 <= i < report.len() implies !(#[trigger] report[i]
                is TaskDone) by {}
            lemma_no_end_announced(report);
            lemma_handover_ends(next);
            lemma_announced_ends_add(passed_on, report);
            lemma_announced_ends_add(passed_on + report, closing);
        },
    }
}

/// A pipeline never announces the end of a task.
pub proof fn lemma_pipeline_never_ends_the_task(v: PipelineView, event: EventView, i: int)
    requires
        0 <= i < pipeline_narration(v, event).len(),
    ensures
        !(pipeline_narration(v, event)[i] is TaskDone),
{
}

/// What is said on moving past a run announces the end of the task
/// exactly if the task is over.
pub proof fn lemma_handover_ends(next: JobView)
    ensures
        announced_ends(handover(next)) == if job_done(next) {
            1nat
        } else {
            0nat
        },
{
    let closing = handover(next);
    if job_done(next) {
        let report = if next.failed {
            Seq::<MessageView>::empty()
        } else {
            success_report(next.target, next.outputs)
        };
        assert forall|i: int| 0 <= i < report.len() implies !(#[trigger] report[i]
            is TaskDone) by {}
        lemma_no_end_announced(report);
        let end = seq![MessageView::TaskDone];
        assert(end.drop_last() =~= Seq::<MessageView>::empty());
        assert(announced_ends(end.drop_last()) == 0);
        assert(end.last() is TaskDone);
        assert(announced_ends(end) == 1);
        lemma_announced_ends_add(report, end);
    } else {
        assert forall|i: int| 0 <= i < closing.len() implies !(#[trigger] closing[i]
            is TaskDone) by {}
        lemma_no_end_announced(closing);
    }
}

/// Over any run of events a task announces its end exactly once if it
/// has ended, whether it succeeded or failed, and not at all before.
pub proof fn lemma_task_done_exactly_once(v: JobView, events: Seq<EventView>)
    requires
        job_inv(v),
        !job_done(v),
    ensures
        job_inv(job_after(v, events)),
        announced_ends(job_heard(v, events)) == if job_done(job_after(v, events)) {
            1nat
        } else {
            0nat
        },
    decreases events.len(),
{
    if events.len() > 0 {
        let before = job_after(v, events.drop_last());
        lemma_task_done_exactly_once(v, events.drop_last());
        lemma_announced_ends_add(
            job_heard(v, events.drop_last()),
            job_narration(before, events.last()),
        );
        if job_done(before) {
            lemma_job_done_is_final(before, events.last());
            assert(job_narration(before, events.last()) =~= Seq::<MessageView>::empty());
        } else {
            lemma_job_step(before, events.last());
        }
    }
}

} // verus!
