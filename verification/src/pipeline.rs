//! The build pipeline of one project: probe the toolchain, make the build
//! root, synchronise the sources, run the build steps in order, discover
//! the artifacts and copy them out.
//!
//! The pipeline is a state machine. It hands out one request at a time and
//! takes in the event that answers it. A step that fails ends the run: no
//! later step is asked for.

use crate::artifacts::{
    collect_executables, copy_plan, copy_plan_of, discovered, job_views, CopyJob, CopyJobView,
};
use crate::compiler::{
    build_system_of, join_path, joined, output_dir_of, release_dir_name, select_build_system,
    source_dir_of, BuildSystem, Project,
};
use crate::errors::{ErrorView, Exit, PipelineError};
use crate::messages::{
    message_views, optional_request, AppMessage, CopyReport, CopyReportView, Event, EventView,
    MessageView, Request, RequestView,
};
use crate::process::{command_banner, command_outcome, outcome_of, RunReportView};
use crate::sync::{
    sync_narration, sync_next, sync_outcome, sync_request, sync_start, SourceSync, SyncView,
};
use crate::text::{decimal, decimal_string, views};
use vstd::prelude::*;
use vstd::string::*;

verus! {

/// The line that frames a headline in the log.
pub const RULE: &'static str = "============================================================";

/// What is said when the dependency manager is missing.
pub const MISSING_CARGO: &'static str =
    "Cargo not found in PATH.\n\nPlease check the dependencies, ensure Rust is installed, then restart.";

/// What is said of a build root that cannot be made.
pub const BUILD_DIR_CONTEXT: &'static str = "Failed to create build directory";

/// What is said of an output directory that cannot be made.
pub const OUTPUT_DIR_CONTEXT: &'static str = "Failed to create output directory";

/// How the modern build system is configured: every optional subsystem off.
pub const CMAKE_CONFIGURE: &'static str =
    "cmake -B build -DENABLE_WALLET=OFF -DENABLE_IPC=OFF -DBUILD_TESTS=OFF -DBUILD_BENCH=OFF -DBUILD_GUI=OFF -DWITH_MINIUPNPC=OFF -DWITH_NATPMP=OFF -DWITH_ZMQ=OFF";

/// What is said of a configure step of the modern build system that failed.
pub const CMAKE_CONFIGURE_CONTEXT: &'static str =
    "cmake configure failed.\nCommon causes:\n- libevent not installed: brew install libevent\n- cmake not installed:    brew install cmake\n- Xcode CLI tools missing: xcode-select --install";

/// How the legacy build system is configured: every optional subsystem off.
pub const LEGACY_CONFIGURE: &'static str =
    "./configure --disable-wallet --with-gui=no --disable-tests --disable-bench --without-miniupnpc --without-natpmp --disable-zmq";

/// One command of a build, with what is said before it, what is said of
/// its failure, and the progress that its success marks.
#[derive(Clone, Debug, PartialEq, Eq)]
pub struct BuildStep {
    pub title: String,
    pub context: String,
    pub command: String,
    pub milestone: u8,
}

/// A build step over plain values.
pub struct StepView {
    pub title: Seq<char>,
    pub context: Seq<char>,
    pub command: Seq<char>,
    pub milestone: int,
}

impl View for BuildStep {
    type V = StepView;

    open spec fn view(&self) -> StepView {
        StepView {
            title: self.title@,
            context: self.context@,
            command: self.command@,
            milestone: self.milestone as int,
        }
    }
}

/// The views of a sequence of build steps.
pub open spec fn step_views(v: Seq<BuildStep>) -> Seq<StepView> {
    v.map_values(|s: BuildStep| s@)
}

/// Where a pipeline stands.
#[derive(Clone, Debug, PartialEq, Eq)]
pub enum Stage {
    /// Asking whether the dependency manager is there.
    ProbeCargo,
    /// Asking for the version of the compiler.
    ProbeRustc,
    /// Making the build root.
    MakeBuildDir,
    /// Synchronising the sources.
    Sync,
    /// Running the build step of the given number.
    Build(usize),
    /// Listing the directory of the artifacts.
    Discover,
    /// Making the output directory.
    MakeOutputDir,
    /// Copying the artifact of the given number.
    Copy(usize),
    /// The artifacts are in the output directory.
    Finished,
    /// The pipeline failed.
    Failed(PipelineError),
}

/// A stage over plain values.
pub enum StageView {
    ProbeCargo,
    ProbeRustc,
    MakeBuildDir,
    Sync,
    Build(int),
    Discover,
    MakeOutputDir,
    Copy(int),
    Finished,
    Failed(ErrorView),
}

impl View for Stage {
    type V = StageView;

    open spec fn view(&self) -> StageView {
        match self {
            Stage::ProbeCargo => StageView::ProbeCargo,
            Stage::ProbeRustc => StageView::ProbeRustc,
            Stage::MakeBuildDir => StageView::MakeBuildDir,
            Stage::Sync => StageView::Sync,
            Stage::Build(i) => StageView::Build(*i as int),
            Stage::Discover => StageView::Discover,
            Stage::MakeOutputDir => StageView::MakeOutputDir,
            Stage::Copy(i) => StageView::Copy(*i as int),
            Stage::Finished => StageView::Finished,
            Stage::Failed(e) => StageView::Failed(e@),
        }
    }
}

/// The build of one version of one project.
#[derive(Clone, Debug, PartialEq, Eq)]
pub struct BuildPipeline {
    pub project: Project,
    pub system: BuildSystem,
    pub version: String,
    pub build_root: String,
    pub source_dir: String,
    pub output_dir: String,
    pub artifact_dir: String,
    pub sync: SourceSync,
    pub steps: Vec<BuildStep>,
    pub pending: Vec<CopyJob>,
    pub copied: Vec<String>,
    pub stage: Stage,
}

/// A pipeline over plain values.
pub struct PipelineView {
    pub project: Project,
    pub system: BuildSystem,
    pub version: Seq<char>,
    pub build_root: Seq<char>,
    pub source_dir: Seq<char>,
    pub output_dir: Seq<char>,
    pub artifact_dir: Seq<char>,
    pub sync: SyncView,
    pub steps: Seq<StepView>,
    pub pending: Seq<CopyJobView>,
    pub copied: Seq<Seq<char>>,
    pub stage: StageView,
}

impl View for BuildPipeline {
    type V = PipelineView;

    open spec fn view(&self) -> PipelineView {
        PipelineView {
            project: self.project,
            system: self.system,
            version: self.version@,
            build_root: self.build_root@,
            source_dir: self.source_dir@,
            output_dir: self.output_dir@,
            artifact_dir: self.artifact_dir@,
            sync: self.sync@,
            steps: step_views(self.steps@),
            pending: job_views(self.pending@),
            copied: views(self.copied@),
            stage: self.stage@,
        }
    }
}

/// The repository of a project.
pub open spec fn repo_url_of(project: Project) -> Seq<char> {
    match project {
        Project::Bitcoin => "https://github.com/bitcoin/bitcoin.git"@,
        Project::Electrs => "https://github.com/romanz/electrs.git"@,
    }
}

/// The name of a project in headlines.
pub open spec fn headline_name(project: Project) -> Seq<char> {
    match project {
        Project::Bitcoin => "BITCOIN CORE"@,
        Project::Electrs => "ELECTRS"@,
    }
}

/// The progress that a finished synchronisation marks.
pub open spec fn sync_milestone(project: Project) -> int {
    match project {
        Project::Bitcoin => 20,
        Project::Electrs => 30,
    }
}

/// The directory in which a build system leaves its executables.
pub open spec fn artifact_dir_of(system: BuildSystem, source_dir: Seq<char>) -> Seq<char> {
    match system {
        BuildSystem::Modern => joined(source_dir, "build/bin"@),
        BuildSystem::Legacy => joined(source_dir, "src"@),
        BuildSystem::Cargo => joined(source_dir, "target/release"@),
    }
}

/// The steps of a build, in order, for so many parallel jobs.
pub open spec fn plan_of(system: BuildSystem, cores: nat) -> Seq<StepView> {
    match system {
        BuildSystem::Modern => seq![
            StepView {
                title: "\n-- Step 1/2: CMake configure --\n"@,
                context: CMAKE_CONFIGURE_CONTEXT@,
                command: CMAKE_CONFIGURE@,
                milestone: 45,
            },
            StepView {
                title: "\n-- Step 2/2: Build --\n"@,
                context: "cmake build failed"@,
                command: "cmake --build build -j "@ + decimal(cores),
                milestone: 90,
            },
        ],
        BuildSystem::Legacy => seq![
            StepView {
                title: "\n-- Step 1/3: Bootstrap --\n"@,
                context: "autogen failed"@,
                command: "./autogen.sh"@,
                milestone: 30,
            },
            StepView {
                title: "\n-- Step 2/3: Configure --\n"@,
                context: "configure failed"@,
                command: LEGACY_CONFIGURE@,
                milestone: 45,
            },
            StepView {
                title: "\n-- Step 3/3: Build --\n"@,
                context: "make failed"@,
                command: "make -j "@ + decimal(cores),
                milestone: 90,
            },
        ],
        BuildSystem::Cargo => seq![
            StepView {
                title: "\nBuilding with Cargo\n"@,
                context: "cargo build --release failed"@,
                command: "cargo build --release --jobs "@ + decimal(cores),
                milestone: 85,
            },
        ],
    }
}

/// The copies that are known before the build: the one fixed artifact of
/// the second project. The first project's artifacts vary with the version
/// and are discovered after the build.
pub open spec fn known_copies(project: Project, source_dir: Seq<char>, output_dir: Seq<char>) -> Seq<
    CopyJobView,
> {
    match project {
        Project::Bitcoin => Seq::empty(),
        Project::Electrs => copy_plan_of(
            seq![joined(source_dir, "target/release/electrs"@)],
            output_dir,
        ),
    }
}

/// The state in which a pipeline starts.
pub open spec fn pipeline_start(
    project: Project,
    version: Seq<char>,
    build_root: Seq<char>,
    cores: nat,
) -> PipelineView {
    let system = build_system_of(project, version);
    let source_dir = source_dir_of(build_root, project, version);
    let output_dir = output_dir_of(build_root, project, version);
    PipelineView {
        project,
        system,
        version,
        build_root,
        source_dir,
        output_dir,
        artifact_dir: artifact_dir_of(system, source_dir),
        sync: sync_start(source_dir, build_root, version, repo_url_of(project)),
        steps: plan_of(system, cores),
        pending: known_copies(project, source_dir, output_dir),
        copied: Seq::empty(),
        stage: match project {
            Project::Bitcoin => StageView::MakeBuildDir,
            Project::Electrs => StageView::ProbeCargo,
        },
    }
}

/// The headline of a pipeline.
pub open spec fn opening_of(v: PipelineView) -> Seq<MessageView> {
    seq![
        MessageView::Log(
            "\n"@ + RULE@ + "\nCOMPILING "@ + headline_name(v.project) + " "@ + v.version + "\n"@
                + RULE@ + "\n"@,
        ),
    ]
}

/// What a pipeline asks for next; nothing once it is over.
pub open spec fn pipeline_request(v: PipelineView) -> Option<RequestView> {
    match v.stage {
        StageView::ProbeCargo => Some(RequestView::Probe { argv: seq!["cargo"@, "--version"@] }),
        StageView::ProbeRustc => Some(RequestView::Probe { argv: seq!["rustc"@, "--version"@] }),
        StageView::MakeBuildDir => Some(RequestView::MakeDir { path: v.build_root }),
        StageView::Sync => sync_request(v.sync),
        StageView::Build(i) => if 0 <= i < v.steps.len() {
            Some(RequestView::Run { command: v.steps[i].command, cwd: Some(v.source_dir) })
        } else {
            None
        },
        StageView::Discover => Some(RequestView::ListDir { dir: v.artifact_dir }),
        StageView::MakeOutputDir => Some(RequestView::MakeDir { path: v.output_dir }),
        StageView::Copy(i) => if 0 <= i < v.pending.len() {
            Some(RequestView::CopyFile { from: v.pending[i].from, to: v.pending[i].to })
        } else {
            None
        },
        StageView::Finished => None,
        StageView::Failed(_) => None,
    }
}

/// How a pipeline ended: with the output directory, or with a failure;
/// nothing while it is under way.
pub open spec fn pipeline_outcome(v: PipelineView) -> Option<Result<Seq<char>, ErrorView>> {
    match v.stage {
        StageView::Finished => Some(Ok(v.output_dir)),
        StageView::Failed(e) => Some(Err(e)),
        _ => None,
    }
}

/// The stage that follows the last build step.
pub open spec fn after_build(project: Project) -> StageView {
    match project {
        Project::Bitcoin => StageView::Discover,
        Project::Electrs => StageView::MakeOutputDir,
    }
}

/// The stage in which step `i` runs, or what follows the build where there
/// is no such step.
pub open spec fn build_stage(v: PipelineView, i: int) -> StageView {
    if i < v.steps.len() {
        StageView::Build(i)
    } else {
        after_build(v.project)
    }
}

/// What is said before step `i` runs.
pub open spec fn step_opening(v: PipelineView, i: int) -> Seq<MessageView> {
    if 0 <= i < v.steps.len() {
        seq![
            MessageView::Log(v.steps[i].title),
            MessageView::Log("\n$ "@ + v.steps[i].command + "\n"@),
        ]
    } else {
        Seq::empty()
    }
}

/// The failure of a build that left nothing to collect.
pub open spec fn nothing_produced(v: PipelineView) -> StageView {
    StageView::Failed(ErrorView::NoArtifactsProduced { searched: v.artifact_dir })
}

/// What has been copied once the report on copy `i` is in.
pub open spec fn copied_after(v: PipelineView, i: int, report: CopyReportView) -> Seq<Seq<char>> {
    if report is Copied {
        v.copied.push(v.pending[i].to)
    } else {
        v.copied
    }
}

/// The stage after the report on copy `i`: the next copy, or the end. A
/// run that copied nothing has failed, whatever the build reported.
pub open spec fn stage_after_copy(v: PipelineView, i: int, report: CopyReportView) -> StageView {
    if i + 1 < v.pending.len() {
        StageView::Copy(i + 1)
    } else if copied_after(v, i, report).len() == 0 {
        nothing_produced(v)
    } else {
        StageView::Finished
    }
}

/// The stage that a synchronisation in state `sync` puts the pipeline in:
/// the first build step once the sources are in place, failure once the
/// synchronisation has failed, and synchronising until then.
pub open spec fn settled(v: PipelineView, sync: SyncView) -> StageView {
    match sync_outcome(sync) {
        Some(Ok(())) => build_stage(v, 0),
        Some(Err(e)) => StageView::Failed(e),
        None => StageView::Sync,
    }
}

/// What is said once the sources are in place.
pub open spec fn synced_narration(v: PipelineView, sync: SyncView) -> Seq<MessageView> {
    if sync_outcome(sync) == Some(Ok::<(), ErrorView>(())) {
        seq![MessageView::Progress(sync_milestone(v.project))] + step_opening(v, 0)
    } else {
        Seq::empty()
    }
}

/// The stage after an event. An event that does not answer the outstanding
/// request changes nothing, and nothing changes a pipeline that is over.
pub open spec fn next_stage(v: PipelineView, event: EventView) -> StageView {
    match (v.stage, event) {
        (StageView::ProbeCargo, EventView::Probed(Some(_))) => StageView::ProbeRustc,
        (StageView::ProbeCargo, EventView::Probed(None)) => StageView::Failed(
            ErrorView::MissingToolchain { tool: "cargo"@ },
        ),
        (StageView::ProbeRustc, EventView::Probed(_)) => StageView::MakeBuildDir,
        (StageView::MakeBuildDir, EventView::Filesystem(None)) => settled(v, v.sync),
        (StageView::MakeBuildDir, EventView::Filesystem(Some(reason))) => StageView::Failed(
            ErrorView::Filesystem { context: BUILD_DIR_CONTEXT@, reason },
        ),
        (StageView::Sync, _) => settled(v, sync_next(v.sync, event)),
        (StageView::Build(i), EventView::Ran(report)) => if 0 <= i < v.steps.len() {
            match outcome_of(v.steps[i].context, v.steps[i].command, report) {
                Ok(()) => build_stage(v, i + 1),
                Err(e) => StageView::Failed(e),
            }
        } else {
            v.stage
        },
        (StageView::Discover, EventView::Listed(_)) => StageView::MakeOutputDir,
        (StageView::MakeOutputDir, EventView::Filesystem(None)) => if v.pending.len() == 0 {
            nothing_produced(v)
        } else {
            StageView::Copy(0)
        },
        (StageView::MakeOutputDir, EventView::Filesystem(Some(reason))) => StageView::Failed(
            ErrorView::Filesystem { context: OUTPUT_DIR_CONTEXT@, reason },
        ),
        (StageView::Copy(i), EventView::Copied(report)) => if 0 <= i < v.pending.len() {
            stage_after_copy(v, i, report)
        } else {
            v.stage
        },
        (stage, _) => stage,
    }
}

/// The pipeline after an event.
pub open spec fn pipeline_next(v: PipelineView, event: EventView) -> PipelineView {
    PipelineView {
        sync: if v.stage is Sync {
            sync_next(v.sync, event)
        } else {
            v.sync
        },
        pending: match (v.stage, event) {
            (StageView::Discover, EventView::Listed(entries)) => copy_plan_of(
                discovered(entries),
                v.output_dir,
            ),
            _ => v.pending,
        },
        copied: match (v.stage, event) {
            (StageView::Copy(i), EventView::Copied(report)) => if 0 <= i < v.pending.len() {
                copied_after(v, i, report)
            } else {
                v.copied
            },
            _ => v.copied,
        },
        stage: next_stage(v, event),
        ..v
    }
}

/// What is said of one copy.
pub open spec fn copy_note(job: CopyJobView, report: CopyReportView) -> Seq<char> {
    match report {
        CopyReportView::Copied => "  copied "@ + job.to + "\n"@,
        CopyReportView::Missing => "  not found (skipping): "@ + job.from + "\n"@,
        CopyReportView::Failed(reason) => "  failed to copy "@ + job.from + ": "@ + reason + "\n"@,
    }
}

/// What is said at the end of a run that succeeded.
pub open spec fn success_narration(v: PipelineView) -> Seq<MessageView> {
    seq![
        MessageView::Progress(100),
        MessageView::Log(
            "\n"@ + headline_name(v.project) + " "@ + v.version
                + " compiled. Binaries copied to: "@ + v.output_dir + "\n"@,
        ),
    ]
}

/// What a pipeline says on an event.
pub open spec fn pipeline_narration(v: PipelineView, event: EventView) -> Seq<MessageView> {
    match (v.stage, event) {
        (StageView::ProbeCargo, EventView::Probed(Some(version))) => seq![
            MessageView::Log("Cargo: "@ + version + "\n"@),
        ],
        (StageView::ProbeCargo, EventView::Probed(None)) => seq![
            MessageView::Log(MISSING_CARGO@),
            MessageView::ShowDialog {
                title: "Rust Not Found"@,
                message: MISSING_CARGO@,
                is_error: true,
            },
        ],
        (StageView::ProbeRustc, EventView::Probed(Some(version))) => seq![
            MessageView::Log("Rustc: "@ + version + "\n"@),
        ],
        (StageView::MakeBuildDir, EventView::Filesystem(None)) => synced_narration(v, v.sync),
        (StageView::Sync, _) => sync_narration(v.sync, event) + synced_narration(
            v,
            sync_next(v.sync, event),
        ),
        (StageView::Build(i), EventView::Ran(report)) => if 0 <= i < v.steps.len() && report
            == RunReportView::Finished(Exit::Code(0)) {
            seq![MessageView::Progress(v.steps[i].milestone)] + step_opening(v, i + 1)
        } else {
            Seq::empty()
        },
        (StageView::MakeOutputDir, EventView::Filesystem(None)) => if v.pending.len() == 0 {
            Seq::empty()
        } else {
            seq![MessageView::Log("Output directory: "@ + v.output_dir + "\n"@)]
        },
        (StageView::Copy(i), EventView::Copied(report)) => if 0 <= i < v.pending.len() {
            seq![MessageView::Log(copy_note(v.pending[i], report))] + (if stage_after_copy(
                v,
                i,
                report,
            ) is Finished {
                success_narration(v)
            } else {
                Seq::empty()
            })
        } else {
            Seq::empty()
        },
        _ => Seq::empty(),
    }
}

/// The view of the outcome of a pipeline.
pub open spec fn outcome_view(r: Option<Result<String, PipelineError>>) -> Option<
    Result<Seq<char>, ErrorView>,
> {
    match r {
        Some(Ok(dir)) => Some(Ok(dir@)),
        Some(Err(e)) => Some(Err(e@)),
        None => None,
    }
}

fn step(title: &str, context: &str, command: String, milestone: u8) -> (s: BuildStep)
    ensures
        s@ == (StepView {
            title: title@,
            context: context@,
            command: command@,
            milestone: milestone as int,
        }),
{
    BuildStep {
        title: String::from_str(title),
        context: String::from_str(context),
        command,
        milestone,
    }
}

fn with_jobs(command: &str, cores: usize) -> (s: String)
    ensures
        s@ == command@ + decimal(cores as nat),
{
    let mut s = String::from_str(command);
    s.append(decimal_string(cores as u64).as_str());
    s
}

/// The steps of a build, in order, for so many parallel jobs.
pub fn build_steps(system: BuildSystem, cores: usize) -> (steps: Vec<BuildStep>)
    ensures
        step_views(steps@) == plan_of(system, cores as nat),
{
    let mut steps: Vec<BuildStep> = Vec::new();
    match system {
        BuildSystem::Modern => {
            steps.push(
                step(
                    "\n-- Step 1/2: CMake configure --\n",
                    CMAKE_CONFIGURE_CONTEXT,
                    String::from_str(CMAKE_CONFIGURE),
                    45,
                ),
            );
            steps.push(
                step(
                    "\n-- Step 2/2: Build --\n",
                    "cmake build failed",
                    with_jobs("cmake --build build -j ", cores),
                    90,
                ),
            );
        },
        BuildSystem::Legacy => {
            steps.push(
                step(
                    "\n-- Step 1/3: Bootstrap --\n",
                    "autogen failed",
                    String::from_str("./autogen.sh"),
                    30,
                ),
            );
            steps.push(
                step(
                    "\n-- Step 2/3: Configure --\n",
                    "configure failed",
                    String::from_str(LEGACY_CONFIGURE),
                    45,
                ),
            );
            steps.push(
                step("\n-- Step 3/3: Build --\n", "make failed", with_jobs("make -j ", cores), 90),
            );
        },
        BuildSystem::Cargo => {
            steps.push(
                step(
                    "\nBuilding with Cargo\n",
                    "cargo build --release failed",
                    with_jobs("cargo build --release --jobs ", cores),
                    85,
                ),
            );
        },
    }
    assert(step_views(steps@) =~= plan_of(system, cores as nat));
    steps
}

/// Appends `more` to `messages`.
pub fn append_messages(messages: &mut Vec<AppMessage>, more: Vec<AppMessage>)
    ensures
        message_views(final(messages)@) == message_views(old(messages)@) + message_views(more@),
{
    let mut more = more;
    let ghost before = message_views(messages@);
    let ghost added = message_views(more@);
    messages.append(&mut more);
    assert(message_views(messages@) =~= before + added);
}

impl BuildPipeline {
    /// The pipeline that builds `version` of `project` under `build_root`
    /// with `cores` parallel jobs.
    pub fn new(project: Project, version: &str, build_root: &str, cores: usize) -> (pipeline:
        BuildPipeline)
        ensures
            pipeline@ == pipeline_start(project, version@, build_root@, cores as nat),
    {
        let system = select_build_system(project, version);
        let name = release_dir_name(project, version);
        let source_dir = join_path(build_root, name.as_str());
        let output_dir = join_path(join_path(build_root, "binaries").as_str(), name.as_str());
        let artifact_dir = match system {
            BuildSystem::Modern => join_path(source_dir.as_str(), "build/bin"),
            BuildSystem::Legacy => join_path(source_dir.as_str(), "src"),
            BuildSystem::Cargo => join_path(source_dir.as_str(), "target/release"),
        };
        let url = match project {
            Project::Bitcoin => "https://github.com/bitcoin/bitcoin.git",
            Project::Electrs => "https://github.com/romanz/electrs.git",
        };
        let sync = SourceSync::new(source_dir.as_str(), build_root, version, url);
        let steps = build_steps(system, cores);
        let pending = match project {
            Project::Bitcoin => {
                let none: Vec<CopyJob> = Vec::new();
                assert(job_views(none@) =~= Seq::<CopyJobView>::empty());
                none
            },
            Project::Electrs => {
                let mut fixed: Vec<String> = Vec::new();
                fixed.push(join_path(source_dir.as_str(), "target/release/electrs"));
                assert(views(fixed@) =~= seq![joined(source_dir@, "target/release/electrs"@)]);
                copy_plan(&fixed, output_dir.as_str())
            },
        };
        let stage = match project {
            Project::Bitcoin => Stage::MakeBuildDir,
            Project::Electrs => Stage::ProbeCargo,
        };
        let copied: Vec<String> = Vec::new();
        assert(views(copied@) =~= Seq::<Seq<char>>::empty());
        BuildPipeline {
            project,
            system,
            version: String::from_str(version),
            build_root: String::from_str(build_root),
            source_dir,
            output_dir,
            artifact_dir,
            sync,
            steps,
            pending,
            copied,
            stage,
        }
    }

    fn headline(&self) -> (name: String)
        ensures
            name@ == headline_name(self.project),
    {
        match self.project {
            Project::Bitcoin => String::from_str("BITCOIN CORE"),
            Project::Electrs => String::from_str("ELECTRS"),
        }
    }

    /// The headline with which the run is announced.
    pub fn opening(&self) -> (messages: Vec<AppMessage>)
        ensures
            message_views(messages@) == opening_of(self@),
    {
        let mut text = String::from_str("\n");
        text.append(RULE);
        text.append("\nCOMPILING ");
        text.append(self.headline().as_str());
        text.append(" ");
        text.append(self.version.as_str());
        text.append("\n");
        text.append(RULE);
        text.append("\n");
        let mut messages: Vec<AppMessage> = Vec::new();
        messages.push(AppMessage::Log(text));
        assert(message_views(messages@) =~= opening_of(self@));
        messages
    }

    /// What to do next; nothing once the pipeline is over.
    pub fn request(&self) -> (request: Option<Request>)
        ensures
            optional_request(request) == pipeline_request(self@),
    {
        match &self.stage {
            Stage::ProbeCargo => {
                let mut argv: Vec<String> = Vec::new();
                argv.push(String::from_str("cargo"));
                argv.push(String::from_str("--version"));
                assert(views(argv@) =~= seq!["cargo"@, "--version"@]);
                Some(Request::Probe { argv })
            },
            Stage::ProbeRustc => {
                let mut argv: Vec<String> = Vec::new();
                argv.push(String::from_str("rustc"));
                argv.push(String::from_str("--version"));
                assert(views(argv@) =~= seq!["rustc"@, "--version"@]);
                Some(Request::Probe { argv })
            },
            Stage::MakeBuildDir => Some(Request::MakeDir { path: self.build_root.clone() }),
            Stage::Sync => self.sync.request(),
            Stage::Build(i) => {
                if *i < self.steps.len() {
                    Some(
                        Request::Run {
                            command: self.steps[*i].command.clone(),
                            cwd: Some(self.source_dir.clone()),
                        },
                    )
                } else {
                    None
                }
            },
            Stage::Discover => Some(Request::ListDir { dir: self.artifact_dir.clone() }),
            Stage::MakeOutputDir => Some(Request::MakeDir { path: self.output_dir.clone() }),
            Stage::Copy(i) => {
                if *i < self.pending.len() {
                    Some(
                        Request::CopyFile {
                            from: self.pending[*i].from.clone(),
                            to: self.pending[*i].to.clone(),
                        },
                    )
                } else {
                    None
                }
            },
            Stage::Finished => None,
            Stage::Failed(_) => None,
        }
    }

    /// How the pipeline ended; nothing while it is under way.
    pub fn outcome(&self) -> (outcome: Option<Result<String, PipelineError>>)
        ensures
            outcome_view(outcome) == pipeline_outcome(self@),
    {
        match &self.stage {
            Stage::Finished => Some(Ok(self.output_dir.clone())),
            Stage::Failed(e) => Some(Err(e.duplicate())),
            _ => None,
        }
    }

    fn build_stage_for(&self, i: usize) -> (stage: Stage)
        ensures
            stage@ == build_stage(self@, i as int),
    {
        if i < self.steps.len() {
            Stage::Build(i)
        } else {
            match self.project {
                Project::Bitcoin => Stage::Discover,
                Project::Electrs => Stage::MakeOutputDir,
            }
        }
    }

    fn step_messages(&self, i: usize) -> (messages: Vec<AppMessage>)
        ensures
            message_views(messages@) == step_opening(self@, i as int),
    {
        let mut messages: Vec<AppMessage> = Vec::new();
        if i < self.steps.len() {
            messages.push(AppMessage::Log(self.steps[i].title.clone()));
            messages.push(AppMessage::Log(command_banner(self.steps[i].command.as_str())));
        }
        assert(message_views(messages@) =~= step_opening(self@, i as int));
        messages
    }

    fn nothing_produced_stage(&self) -> (stage: Stage)
        ensures
            stage@ == nothing_produced(self@),
    {
        Stage::Failed(PipelineError::NoArtifactsProduced { searched: self.artifact_dir.clone() })
    }

    fn success_messages(&self) -> (messages: Vec<AppMessage>)
        ensures
            message_views(messages@) == success_narration(self@),
    {
        let mut text = String::from_str("\n");
        text.append(self.headline().as_str());
        text.append(" ");
        text.append(self.version.as_str());
        text.append(" compiled. Binaries copied to: ");
        text.append(self.output_dir.as_str());
        text.append("\n");
        let mut messages: Vec<AppMessage> = Vec::new();
        messages.push(AppMessage::Progress(100));
        messages.push(AppMessage::Log(text));
        assert(message_views(messages@) =~= success_narration(self@));
        messages
    }

    fn copy_message(job: &CopyJob, report: &CopyReport) -> (message: AppMessage)
        ensures
            message@ == MessageView::Log(copy_note(job@, report@)),
    {
        let text = match report {
            CopyReport::Copied => {
                let mut t = String::from_str("  copied ");
                t.append(job.to.as_str());
                t.append("\n");
                t
            },
            CopyReport::Missing => {
                let mut t = String::from_str("  not found (skipping): ");
                t.append(job.from.as_str());
                t.append("\n");
                t
            },
            CopyReport::Failed(reason) => {
                let mut t = String::from_str("  failed to copy ");
                t.append(job.from.as_str());
                t.append(": ");
                t.append(reason.as_str());
                t.append("\n");
                t
            },
        };
        AppMessage::Log(text)
    }

    fn labelled(label: &str, text: &String) -> (message: AppMessage)
        ensures
            message@ == MessageView::Log(label@ + text@ + "\n"@),
    {
        let mut t = String::from_str(label);
        t.append(text.as_str());
        t.append("\n");
        AppMessage::Log(t)
    }

    fn on_probe_cargo(&mut self, event: &Event) -> (messages: Vec<AppMessage>)
        requires
            old(self).stage is ProbeCargo,
        ensures
            final(self)@ == pipeline_next(old(self)@, event@),
            message_views(messages@) == pipeline_narration(old(self)@, event@),
    {
        let mut messages: Vec<AppMessage> = Vec::new();
        assert(message_views(messages@) =~= Seq::<MessageView>::empty());
        match event {
            Event::Probed(Some(version)) => {
                messages.push(Self::labelled("Cargo: ", version));
                assert(message_views(messages@) =~= seq![
                    MessageView::Log("Cargo: "@ + version@ + "\n"@),
                ]);
                self.stage = Stage::ProbeRustc;
            },
            Event::Probed(None) => {
                messages.push(AppMessage::Log(String::from_str(MISSING_CARGO)));
                messages.push(
                    AppMessage::ShowDialog {
                        title: String::from_str("Rust Not Found"),
                        message: String::from_str(MISSING_CARGO),
                        is_error: true,
                    },
                );
                assert(message_views(messages@) =~= pipeline_narration(old(self)@, event@));
                self.stage = Stage::Failed(
                    PipelineError::MissingToolchain { tool: String::from_str("cargo") },
                );
            },
            _ => {},
        }
        messages
    }

    /// Moves on from the synchronisation as far as it has come.
    fn settle(&mut self) -> (messages: Vec<AppMessage>)
        ensures
            final(self)@ == (PipelineView {
                stage: settled(old(self)@, old(self)@.sync),
                ..old(self)@
            }),
            message_views(messages@) == synced_narration(old(self)@, old(self)@.sync),
    {
        let mut messages: Vec<AppMessage> = Vec::new();
        assert(message_views(messages@) =~= Seq::<MessageView>::empty());
        match self.sync.outcome() {
            Some(Ok(())) => {
                messages.push(
                    AppMessage::Progress(
                        match self.project {
                            Project::Bitcoin => 20,
                            Project::Electrs => 30,
                        },
                    ),
                );
                assert(message_views(messages@) =~= seq![
                    MessageView::Progress(sync_milestone(self.project)),
                ]);
                append_messages(&mut messages, self.step_messages(0));
                self.stage = self.build_stage_for(0);
            },
            Some(Err(e)) => {
                self.stage = Stage::Failed(e);
            },
            None => {
                self.stage = Stage::Sync;
            },
        }
        messages
    }

    fn on_sync(&mut self, event: &Event) -> (messages: Vec<AppMessage>)
        requires
            old(self).stage is Sync,
        ensures
            final(self)@ == pipeline_next(old(self)@, event@),
            message_views(messages@) == pipeline_narration(old(self)@, event@),
    {
        let mut messages = self.sync.advance(event);
        append_messages(&mut messages, self.settle());
        messages
    }

    fn on_make_build_dir(&mut self, event: &Event) -> (messages: Vec<AppMessage>)
        requires
            old(self).stage is MakeBuildDir,
        ensures
            final(self)@ == pipeline_next(old(self)@, event@),
            message_views(messages@) == pipeline_narration(old(self)@, event@),
    {
        match event {
            Event::Filesystem(None) => self.settle(),
            Event::Filesystem(Some(reason)) => {
                self.stage = Stage::Failed(
                    PipelineError::Filesystem {
                        context: String::from_str(BUILD_DIR_CONTEXT),
                        reason: reason.clone(),
                    },
                );
                let messages: Vec<AppMessage> = Vec::new();
                assert(message_views(messages@) =~= Seq::<MessageView>::empty());
                messages
            },
            _ => {
                let messages: Vec<AppMessage> = Vec::new();
                assert(message_views(messages@) =~= Seq::<MessageView>::empty());
                messages
            },
        }
    }

    fn on_build(&mut self, i: usize, event: &Event) -> (messages: Vec<AppMessage>)
        requires
            old(self).stage == Stage::Build(i),
        ensures
            final(self)@ == pipeline_next(old(self)@, event@),
            message_views(messages@) == pipeline_narration(old(self)@, event@),
    {
        let mut messages: Vec<AppMessage> = Vec::new();
        assert(message_views(messages@) =~= Seq::<MessageView>::empty());
        if i >= self.steps.len() {
            return messages;
        }
        match event {
            Event::Ran(report) => {
                match command_outcome(
                    self.steps[i].context.as_str(),
                    self.steps[i].command.as_str(),
                    report,
                ) {
                    Ok(()) => {
                        messages.push(AppMessage::Progress(self.steps[i].milestone));
                        assert(message_views(messages@) =~= seq![
                            MessageView::Progress(self@.steps[i as int].milestone),
                        ]);
                        if i + 1 < self.steps.len() {
                            append_messages(&mut messages, self.step_messages(i + 1));
                            self.stage = Stage::Build(i + 1);
                        } else {
                            assert(step_opening(self@, i + 1) =~= Seq::<MessageView>::empty());
                            assert(message_views(messages@) + Seq::<MessageView>::empty()
                                =~= message_views(messages@));
                            self.stage = match self.project {
                                Project::Bitcoin => Stage::Discover,
                                Project::Electrs => Stage::MakeOutputDir,
                            };
                        }
                    },
                    Err(e) => {
                        self.stage = Stage::Failed(e);
                    },
                }
            },
            _ => {},
        }
        messages
    }

    fn on_copy(&mut self, i: usize, event: &Event) -> (messages: Vec<AppMessage>)
        requires
            old(self).stage == Stage::Copy(i),
        ensures
            final(self)@ == pipeline_next(old(self)@, event@),
            message_views(messages@) == pipeline_narration(old(self)@, event@),
    {
        let mut messages: Vec<AppMessage> = Vec::new();
        assert(message_views(messages@) =~= Seq::<MessageView>::empty());
        if i >= self.pending.len() {
            return messages;
        }
        match event {
            Event::Copied(report) => {
                messages.push(Self::copy_message(&self.pending[i], report));
                assert(message_views(messages@) =~= seq![
                    MessageView::Log(copy_note(self@.pending[i as int], report@)),
                ]);
                let ghost before = views(self.copied@);
                match report {
                    CopyReport::Copied => {
                        let to = self.pending[i].to.clone();
                        self.copied.push(to);
                        assert(views(self.copied@) =~= before.push(old(self)@.pending[i as int].to));
                    },
                    _ => {},
                }
                assert(views(self.copied@) == copied_after(old(self)@, i as int, report@));
                if i + 1 < self.pending.len() {
                    assert(message_views(messages@) + Seq::<MessageView>::empty()
                        =~= message_views(messages@));
                    self.stage = Stage::Copy(i + 1);
                } else if self.copied.len() == 0 {
                    assert(message_views(messages@) + Seq::<MessageView>::empty()
                        =~= message_views(messages@));
                    self.stage = self.nothing_produced_stage();
                } else {
                    append_messages(&mut messages, self.success_messages());
                    self.stage = Stage::Finished;
                }
            },
            _ => {},
        }
        messages
    }

    /// Takes in what the outside world reported and says what the observer
    /// should hear of it.
    pub fn advance(&mut self, event: &Event) -> (messages: Vec<AppMessage>)
        ensures
            final(self)@ == pipeline_next(old(self)@, event@),
            message_views(messages@) == pipeline_narration(old(self)@, event@),
    {
        let mut messages: Vec<AppMessage> = Vec::new();
        assert(message_views(messages@) =~= Seq::<MessageView>::empty());
        match &self.stage {
            Stage::ProbeCargo => {
                return self.on_probe_cargo(event);
            },
            Stage::ProbeRustc => {
                match event {
                    Event::Probed(Some(version)) => {
                        messages.push(Self::labelled("Rustc: ", version));
                        assert(message_views(messages@) =~= seq![
                            MessageView::Log("Rustc: "@ + version@ + "\n"@),
                        ]);
                        self.stage = Stage::MakeBuildDir;
                    },
                    Event::Probed(None) => {
                        self.stage = Stage::MakeBuildDir;
                    },
                    _ => {},
                }
            },
            Stage::MakeBuildDir => {
                return self.on_make_build_dir(event);
            },
            Stage::Sync => {
                return self.on_sync(event);
            },
            Stage::Build(i) => {
                let i = *i;
                return self.on_build(i, event);
            },
            Stage::Discover => {
                match event {
                    Event::Listed(entries) => {
                        let candidates = collect_executables(entries);
                        self.pending = copy_plan(&candidates, self.output_dir.as_str());
                        self.stage = Stage::MakeOutputDir;
                    },
                    _ => {},
                }
            },
            Stage::MakeOutputDir => {
                match event {
                    Event::Filesystem(None) => {
                        if self.pending.len() == 0 {
                            self.stage = self.nothing_produced_stage();
                        } else {
                            let mut note = String::from_str("Output directory: ");
                            note.append(self.output_dir.as_str());
                            note.append("\n");
                            messages.push(AppMessage::Log(note));
                            assert(message_views(messages@) =~= seq![
                                MessageView::Log("Output directory: "@ + self.output_dir@ + "\n"@),
                            ]);
                            self.stage = Stage::Copy(0);
                        }
                    },
                    Event::Filesystem(Some(reason)) => {
                        self.stage = Stage::Failed(
                            PipelineError::Filesystem {
                                context: String::from_str(OUTPUT_DIR_CONTEXT),
                                reason: reason.clone(),
                            },
                        );
                    },
                    _ => {},
                }
            },
            Stage::Copy(i) => {
                let i = *i;
                return self.on_copy(i, event);
            },
            Stage::Finished => {},
            Stage::Failed(_) => {},
        }
        messages
    }
}

/// The pipeline that builds a version of Bitcoin Core under `build_dir`.
pub fn compile_bitcoin(version: &str, build_dir: &str, cores: usize) -> (pipeline: BuildPipeline)
    ensures
        pipeline@ == pipeline_start(Project::Bitcoin, version@, build_dir@, cores as nat),
{
    BuildPipeline::new(Project::Bitcoin, version, build_dir, cores)
}

/// The pipeline that builds a version of Electrs under `build_dir`.
pub fn compile_electrs(version: &str, build_dir: &str, cores: usize) -> (pipeline: BuildPipeline)
    ensures
        pipeline@ == pipeline_start(Project::Electrs, version@, build_dir@, cores as nat),
{
    BuildPipeline::new(Project::Electrs, version, build_dir, cores)
}

/// The place of a stage in the order of a run: probing, making the build
/// root, synchronising, the build steps one by one, discovery, making the
/// output directory, the copies one by one, and the end.
pub open spec fn stage_rank(v: PipelineView) -> int {
    match v.stage {
        StageView::ProbeCargo => 0,
        StageView::ProbeRustc => 1,
        StageView::MakeBuildDir => 2,
        StageView::Sync => 3,
        StageView::Build(i) => 4 + i,
        StageView::Discover => 4 + v.steps.len() as int,
        StageView::MakeOutputDir => 5 + v.steps.len() as int,
        StageView::Copy(i) => 6 + v.steps.len() as int + i,
        StageView::Finished => 7 + v.steps.len() as int + v.pending.len() as int,
        StageView::Failed(_) => 7 + v.steps.len() as int + v.pending.len() as int,
    }
}

/// The milestones of the steps rise from the milestone of the
/// synchronisation and stay within the scale.
pub open spec fn milestones_rise(v: PipelineView) -> bool {
    &&& 0 <= sync_milestone(v.project) <= 100
    &&& forall|i: int|
        0 <= i < v.steps.len() ==> sync_milestone(v.project) <= (#[trigger] v.steps[i]).milestone
            <= 100
    &&& forall|i: int, j: int|
        0 <= i < j < v.steps.len() ==> (#[trigger] v.steps[i]).milestone <= (
        #[trigger] v.steps[j]).milestone
}

/// What holds of every state that a pipeline can reach: a build stage names
/// a step that exists, a copy stage a copy that exists; the pipeline is
/// synchronising only while the synchronisation is under way; it has
/// finished only if something was copied; and the milestones rise.
pub open spec fn pipeline_inv(v: PipelineView) -> bool {
    &&& milestones_rise(v)
    &&& match v.stage {
        StageView::Sync => sync_outcome(v.sync) is None,
        StageView::Build(i) => 0 <= i < v.steps.len(),
        StageView::Copy(i) => 0 <= i < v.pending.len(),
        StageView::Finished => v.copied.len() > 0,
        _ => true,
    }
}

/// The progress that a pipeline has reached.
pub open spec fn progress_reached(v: PipelineView) -> int {
    match v.stage {
        StageView::ProbeCargo => 0,
        StageView::ProbeRustc => 0,
        StageView::MakeBuildDir => 0,
        StageView::Sync => 0,
        StageView::Build(i) => if 0 < i <= v.steps.len() {
            v.steps[i - 1].milestone
        } else {
            sync_milestone(v.project)
        },
        StageView::Discover => last_milestone(v),
        StageView::MakeOutputDir => last_milestone(v),
        StageView::Copy(_) => last_milestone(v),
        StageView::Finished => 100,
        StageView::Failed(_) => 100,
    }
}

/// The milestone of the last build step, or of the synchronisation where
/// there is no step.
pub open spec fn last_milestone(v: PipelineView) -> int {
    if v.steps.len() > 0 {
        v.steps.last().milestone
    } else {
        sync_milestone(v.project)
    }
}

/// No progress report is followed by a lower one.
pub open spec fn progress_never_falls(messages: Seq<MessageView>) -> bool {
    forall|i: int, j: int|
        0 <= i < j < messages.len() && (#[trigger] messages[i]) is Progress && (
        #[trigger] messages[j]) is Progress ==> messages[i]->Progress_0
            <= messages[j]->Progress_0
}

/// Every progress report lies between the two bounds.
pub open spec fn progress_within(messages: Seq<MessageView>, low: int, high: int) -> bool {
    forall|i: int|
        0 <= i < messages.len() && (#[trigger] messages[i]) is Progress ==> low
            <= messages[i]->Progress_0 <= high
}

/// The pipeline after a run of events, taken in order.
pub open spec fn pipeline_after(v: PipelineView, events: Seq<EventView>) -> PipelineView
    decreases events.len(),
{
    if events.len() == 0 {
        v
    } else {
        pipeline_next(pipeline_after(v, events.drop_last()), events.last())
    }
}

/// All that a pipeline says over a run of events.
pub open spec fn pipeline_heard(v: PipelineView, events: Seq<EventView>) -> Seq<MessageView>
    decreases events.len(),
{
    if events.len() == 0 {
        Seq::empty()
    } else {
        pipeline_heard(v, events.drop_last()) + pipeline_narration(
            pipeline_after(v, events.drop_last()),
            events.last(),
        )
    }
}

/// A pipeline starts in a state that it can reach, with an outstanding
/// request and no outcome.
pub proof fn lemma_start_is_sound(
    project: Project,
    version: Seq<char>,
    build_root: Seq<char>,
    cores: nat,
)
    ensures
        pipeline_inv(pipeline_start(project, version, build_root, cores)),
        pipeline_request(pipeline_start(project, version, build_root, cores)) is Some,
        pipeline_outcome(pipeline_start(project, version, build_root, cores)) is None,
        progress_reached(pipeline_start(project, version, build_root, cores)) == 0,
{
}

/// A pipeline asks for something exactly as long as it has no outcome.
pub proof fn lemma_pipeline_request_or_outcome(v: PipelineView)
    requires
        pipeline_inv(v),
    ensures
        pipeline_request(v) is None <==> pipeline_outcome(v) is Some,
{
}

/// A pipeline that is over stays as it is and says no more, whatever is
/// reported: after a failure no later step is asked for.
pub proof fn lemma_pipeline_over_is_final(v: PipelineView, event: EventView)
    requires
        pipeline_outcome(v) is Some,
    ensures
        pipeline_next(v, event) == v,
        pipeline_narration(v, event).len() == 0,
        pipeline_request(v) is None,
{
}

/// A run that finished copied something: a build that left nothing to
/// collect has failed, whatever its commands reported.
pub proof fn lemma_success_has_artifacts(v: PipelineView)
    requires
        pipeline_inv(v),
        pipeline_outcome(v) is Some,
        pipeline_outcome(v)->0 is Ok,
    ensures
        v.copied.len() > 0,
        pipeline_outcome(v) == Some(Ok::<Seq<char>, ErrorView>(v.output_dir)),
{
}

/// One event keeps a pipeline within the states that it can reach. What
/// is said on it reports progress in rising order, no lower than what was
/// reached before and no higher than what is reached after.
pub proof fn lemma_pipeline_step(v: PipelineView, event: EventView)
    requires
        pipeline_inv(v),
    ensures
        pipeline_inv(pipeline_next(v, event)),
        0 <= progress_reached(v) <= progress_reached(pipeline_next(v, event)) <= 100,
        progress_never_falls(pipeline_narration(v, event)),
        progress_within(
            pipeline_narration(v, event),
            progress_reached(v),
            progress_reached(pipeline_next(v, event)),
        ),
{
    let next = pipeline_next(v, event);
    let said = pipeline_narration(v, event);
    assert(milestones_rise(next));
    match v.stage {
        StageView::Sync => {
            let told = sync_narration(v.sync, event);
            assert forall|i: int| 0 <= i < told.len() implies !(#[trigger] told[i] is Progress) by {}
            assert(said == told + synced_narration(v, sync_next(v.sync, event)));
        },
        StageView::Build(i) => {
            if i > 0 {
                assert(v.steps[i - 1].milestone <= v.steps[i].milestone);
            }
        },
        _ => {},
    }
}

/// A pipeline never goes back: whatever is reported, it stays at its stage
/// or moves to a later one, so that the sources are synchronised before
/// anything is configured, configured before anything is built, and built
/// before anything is collected.
pub proof fn lemma_stages_in_sequence(v: PipelineView, event: EventView)
    requires
        pipeline_inv(v),
    ensures
        stage_rank(v) <= stage_rank(pipeline_next(v, event)),
        pipeline_next(v, event).stage != v.stage ==> stage_rank(v) < stage_rank(
            pipeline_next(v, event),
        ),
{
}

/// Over any run of events a pipeline stays within the states that it can
/// reach, and the progress that it reports never falls and stays between
/// what was reached at the start and what is reached in the end.
pub proof fn lemma_progress_never_falls(v: PipelineView, events: Seq<EventView>)
    requires
        pipeline_inv(v),
    ensures
        pipeline_inv(pipeline_after(v, events)),
        0 <= progress_reached(v) <= progress_reached(pipeline_after(v, events)) <= 100,
        progress_never_falls(pipeline_heard(v, events)),
        progress_within(
            pipeline_heard(v, events),
            progress_reached(v),
            progress_reached(pipeline_after(v, events)),
        ),
    decreases events.len(),
{
    if events.len() == 0 {
        lemma_pipeline_step(v, EventView::Resumed);
    } else {
        let before = pipeline_after(v, events.drop_last());
        lemma_progress_never_falls(v, events.drop_last());
        lemma_pipeline_step(before, events.last());
        let earlier = pipeline_heard(v, events.drop_last());
        let now = pipeline_narration(before, events.last());
        let all = earlier + now;
        assert forall|i: int, j: int|
            0 <= i < j < all.len() && (#[trigger] all[i]) is Progress && (
            #[trigger] all[j]) is Progress implies all[i]->Progress_0 <= all[j]->Progress_0 by {
            if j < earlier.len() {
                assert(all[i] == earlier[i] && all[j] == earlier[j]);
            } else if i < earlier.len() {
                assert(all[i] == earlier[i]);
                assert(all[j] == now[j - earlier.len()]);
            } else {
                assert(all[i] == now[i - earlier.len()]);
                assert(all[j] == now[j - earlier.len()]);
            }
        }
        assert forall|i: int| 0 <= i < all.len() && (#[trigger] all[i]) is Progress implies
            progress_reached(v) <= all[i]->Progress_0 <= progress_reached(
            pipeline_after(v, events),
        ) by {
            if i < earlier.len() {
                assert(all[i] == earlier[i]);
            } else {
                assert(all[i] == now[i - earlier.len()]);
            }
        }
    }
}

} // verus!
