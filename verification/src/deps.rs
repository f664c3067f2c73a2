//! The dependency check: which packages are missing, whether to install
//! them, and whether the Rust toolchain is ready.
//!
//! The check is a state machine like the build pipeline. It asks before it
//! installs anything, and an answer that never comes counts as a no.

use crate::errors::{description, Exit};
use crate::job::{announced_ends, lemma_announced_ends_add, lemma_no_end_announced};
use crate::messages::{
    log, message_views, optional_request, resolve_confirmation, AppMessage, Event, EventView,
    MessageView, Request, RequestView,
};
use crate::pipeline::append_messages;
use crate::process::{command_banner, command_outcome, outcome_of, RunReportView};
use crate::text::{decimal, decimal_string, join, join_strings, leading, optional_text, views};
use vstd::prelude::*;
use vstd::string::*;

verus! {

/// How many missing packages the question names before it sums up the rest.
pub const PREVIEW: usize = 5;

/// How long the check waits after an installation before it looks again.
pub const SETTLE_SECONDS: u64 = 2;

/// What is said when the package manager does not know the toolchain.
pub const MANUAL_INSTALL: &'static str =
    "Could not install Rust via Homebrew.\n\nPlease install manually:\n1. Visit https://rustup.rs\n2. Run: curl --proto '=https' --tlsv1.2 -sSf https://sh.rustup.rs | sh\n3. Restart this app";

/// What is said when the toolchain was installed and still is not found.
pub const NOT_IN_PATH: &'static str =
    "Rust was installed but may not be in PATH.\n\nPlease:\n1. Close and reopen this app\n2. OR manually add ~/.cargo/bin to your PATH";

/// What is said when everything is ready.
pub const ALL_READY: &'static str =
    "All dependencies are installed and ready!\n\nYou can now proceed with compilation.";

/// What is said when something still needs attention.
pub const NEED_ATTENTION: &'static str =
    "Some dependencies need attention.\n\nCheck the log for details.\nYou may need to restart the app after installing Rust.";

/// Where a dependency check stands.
#[derive(Clone, Copy, Debug, PartialEq, Eq, Structural)]
pub enum DepsStage {
    /// Asking whether the package of the given number is installed.
    CheckPackage(usize),
    /// Asking whether to install what is missing.
    Confirm,
    /// Installing the missing package of the given number.
    Install(usize),
    /// Asking for the compiler.
    ProbeRustc,
    /// Asking for the dependency manager.
    ProbeCargo,
    /// Asking whether the package manager knows the toolchain.
    BrewInfo,
    /// Installing the toolchain.
    InstallRust,
    /// Giving the installation time to settle.
    Settle,
    /// Asking for the compiler again.
    ReprobeRustc,
    /// Asking for the dependency manager again.
    ReprobeCargo,
    /// The check is over; the toolchain is ready or it is not.
    Done(bool),
}

/// A dependency check.
#[derive(Clone, Debug, PartialEq, Eq)]
pub struct DependencyCheck {
    pub brew: String,
    pub packages: Vec<String>,
    pub missing: Vec<String>,
    pub rustc: Option<String>,
    pub stage: DepsStage,
}

/// A dependency check over plain values.
pub struct DepsView {
    pub brew: Seq<char>,
    pub packages: Seq<Seq<char>>,
    pub missing: Seq<Seq<char>>,
    pub rustc: Option<Seq<char>>,
    pub stage: DepsStage,
}

impl View for DependencyCheck {
    type V = DepsView;

    open spec fn view(&self) -> DepsView {
        DepsView {
            brew: self.brew@,
            packages: views(self.packages@),
            missing: views(self.missing@),
            rustc: optional_text(self.rustc),
            stage: self.stage,
        }
    }
}

/// The packages that both projects need.
pub open spec fn required_packages() -> Seq<Seq<char>> {
    seq![
        "automake"@,
        "libtool"@,
        "pkg-config"@,
        "boost"@,
        "miniupnpc"@,
        "zeromq"@,
        "sqlite"@,
        "python"@,
        "cmake"@,
        "llvm"@,
        "libevent"@,
        "rocksdb"@,
        "rust"@,
        "git"@,
    ]
}

/// The command that installs a package.
pub open spec fn install_command(brew: Seq<char>, package: Seq<char>) -> Seq<char> {
    brew + " install "@ + package
}

/// The question whether to install the missing packages: how many there
/// are, the first five by name, and how many more there are beyond those.
pub open spec fn install_question(missing: Seq<Seq<char>>) -> Seq<char> {
    "Found "@ + decimal(missing.len()) + (if missing.len() == 1 {
        " missing package:\n\n"@
    } else {
        " missing packages:\n\n"@
    }) + join(leading(missing, PREVIEW as nat), ", "@) + (if missing.len() > PREVIEW {
        ", and "@ + decimal((missing.len() - PREVIEW) as nat) + " more"@
    } else {
        Seq::empty()
    }) + "\n\nInstall all missing packages now?"@
}

/// The state in which a check starts.
pub open spec fn deps_start(brew: Seq<char>) -> DepsView {
    DepsView {
        brew,
        packages: required_packages(),
        missing: Seq::empty(),
        rustc: None,
        stage: DepsStage::CheckPackage(0),
    }
}

/// What is said when a check starts.
pub open spec fn deps_opening(v: DepsView) -> Seq<MessageView> {
    seq![
        MessageView::Log("\n=== Checking System Dependencies ===\n"@),
        MessageView::Log("Homebrew found at: "@ + v.brew + "\n"@),
        MessageView::Log("\nChecking Homebrew packages...\n"@),
    ]
}

/// What a check asks for next; nothing once it is over.
pub open spec fn deps_request(v: DepsView) -> Option<RequestView> {
    match v.stage {
        DepsStage::CheckPackage(i) => if i < v.packages.len() {
            Some(RequestView::Check { argv: seq![v.brew, "list"@, v.packages[i as int]] })
        } else {
            None
        },
        DepsStage::Confirm => Some(
            RequestView::Confirm {
                title: "Install Missing Dependencies"@,
                message: install_question(v.missing),
            },
        ),
        DepsStage::Install(i) => if i < v.missing.len() {
            Some(
                RequestView::Run {
                    command: install_command(v.brew, v.missing[i as int]),
                    cwd: None,
                },
            )
        } else {
            None
        },
        DepsStage::ProbeRustc => Some(RequestView::Probe { argv: seq!["rustc"@, "--version"@] }),
        DepsStage::ProbeCargo => Some(RequestView::Probe { argv: seq!["cargo"@, "--version"@] }),
        DepsStage::BrewInfo => Some(RequestView::Check { argv: seq![v.brew, "info"@, "rust"@] }),
        DepsStage::InstallRust => Some(
            RequestView::Run { command: install_command(v.brew, "rust"@), cwd: None },
        ),
        DepsStage::Settle => Some(RequestView::Pause { seconds: SETTLE_SECONDS as int }),
        DepsStage::ReprobeRustc => Some(RequestView::Probe { argv: seq!["rustc"@, "--version"@] }),
        DepsStage::ReprobeCargo => Some(RequestView::Probe { argv: seq!["cargo"@, "--version"@] }),
        DepsStage::Done(_) => None,
    }
}

/// Whether the toolchain is ready, once the check is over.
pub open spec fn deps_outcome(v: DepsView) -> Option<bool> {
    match v.stage {
        DepsStage::Done(ready) => Some(ready),
        _ => None,
    }
}

/// The stage in which missing package `i` is installed, or the check of
/// the toolchain where there is no such package.
pub open spec fn install_stage(v: DepsView, i: int) -> DepsStage {
    if 0 <= i < v.missing.len() {
        DepsStage::Install(i as usize)
    } else {
        DepsStage::ProbeRustc
    }
}

/// What is missing once the answer about package `i` is in.
pub open spec fn missing_after(v: DepsView, i: int, installed: bool) -> Seq<Seq<char>> {
    if installed {
        v.missing
    } else {
        v.missing.push(v.packages[i])
    }
}

/// The stage after the answer about package `i`.
pub open spec fn stage_after_package(v: DepsView, i: int, installed: bool) -> DepsStage {
    if i + 1 < v.packages.len() {
        DepsStage::CheckPackage((i + 1) as usize)
    } else if missing_after(v, i, installed).len() == 0 {
        DepsStage::ProbeRustc
    } else {
        DepsStage::Confirm
    }
}

/// Whether the command ran and exited with code 0.
pub open spec fn succeeded(report: RunReportView) -> bool {
    report == RunReportView::Finished(Exit::Code(0))
}

/// The stage after an event. An event that does not answer the outstanding
/// request changes nothing, and nothing changes a check that is over.
pub open spec fn deps_next_stage(v: DepsView, event: EventView) -> DepsStage {
    match (v.stage, event) {
        (DepsStage::CheckPackage(i), EventView::Checked(installed)) => if i < v.packages.len() {
            stage_after_package(v, i as int, installed)
        } else {
            v.stage
        },
        (DepsStage::Confirm, EventView::Confirmed(reply)) => if reply == Some(true) {
            install_stage(v, 0)
        } else {
            DepsStage::ProbeRustc
        },
        (DepsStage::Install(i), EventView::Ran(_)) => if i < v.missing.len() {
            install_stage(v, i + 1)
        } else {
            v.stage
        },
        (DepsStage::ProbeRustc, EventView::Probed(_)) => DepsStage::ProbeCargo,
        (DepsStage::ProbeCargo, EventView::Probed(cargo)) => if v.rustc is Some && cargo is Some {
            DepsStage::Done(true)
        } else {
            DepsStage::BrewInfo
        },
        (DepsStage::BrewInfo, EventView::Checked(known)) => if known {
            DepsStage::InstallRust
        } else {
            DepsStage::Done(false)
        },
        (DepsStage::InstallRust, EventView::Ran(report)) => if succeeded(report) {
            DepsStage::Settle
        } else {
            DepsStage::Done(false)
        },
        (DepsStage::Settle, EventView::Resumed) => DepsStage::ReprobeRustc,
        (DepsStage::ReprobeRustc, EventView::Probed(_)) => DepsStage::ReprobeCargo,
        (DepsStage::ReprobeCargo, EventView::Probed(cargo)) => DepsStage::Done(
            v.rustc is Some && cargo is Some,
        ),
        (stage, _) => stage,
    }
}

/// The check after an event.
pub open spec fn deps_next(v: DepsView, event: EventView) -> DepsView {
    DepsView {
        missing: match (v.stage, event) {
            (DepsStage::CheckPackage(i), EventView::Checked(installed)) => if i
                < v.packages.len() {
                missing_after(v, i as int, installed)
            } else {
                v.missing
            },
            _ => v.missing,
        },
        rustc: match (v.stage, event) {
            (DepsStage::ProbeRustc, EventView::Probed(found)) => found,
            (DepsStage::ReprobeRustc, EventView::Probed(found)) => found,
            _ => v.rustc,
        },
        stage: deps_next_stage(v, event),
        ..v
    }
}

/// What is said before the toolchain is looked for.
pub open spec fn toolchain_opening() -> Seq<MessageView> {
    seq![MessageView::Log("\n=== Checking Rust Toolchain ===\n"@)]
}

/// What is said before missing package `i` is installed, or before the
/// toolchain is looked for where there is no such package.
pub open spec fn install_opening(v: DepsView, i: int) -> Seq<MessageView> {
    if 0 <= i < v.missing.len() {
        seq![
            MessageView::Log("\nInstalling "@ + v.missing[i] + "...\n"@),
            MessageView::Log("\n$ "@ + install_command(v.brew, v.missing[i]) + "\n"@),
        ]
    } else {
        toolchain_opening()
    }
}

/// How the check is rounded off: a note in the log, a notice, and the end
/// of the task.
pub open spec fn deps_closing(ready: bool) -> Seq<MessageView> {
    seq![
        MessageView::Log("\n=== Dependency Check Complete ===\n"@),
        MessageView::Log(
            if ready {
                "\nRust toolchain is ready!\n"@
            } else {
                "\nRust toolchain needs attention (see messages above)\n"@
            },
        ),
        MessageView::ShowDialog {
            title: "Dependency Check"@,
            message: if ready {
                ALL_READY@
            } else {
                NEED_ATTENTION@
            },
            is_error: false,
        },
        MessageView::TaskDone,
    ]
}

/// What is said of a tool that was looked for.
pub open spec fn found_note(tool: Seq<char>, found: Option<Seq<char>>) -> MessageView {
    match found {
        Some(version) => MessageView::Log(tool + " found: "@ + version + "\n"@),
        None => MessageView::Log(tool + " not found in PATH\n"@),
    }
}

/// What is said of the installation of a package.
pub open spec fn install_report(brew: Seq<char>, package: Seq<char>, report: RunReportView) -> Seq<
    MessageView,
> {
    match outcome_of(Seq::empty(), install_command(brew, package), report) {
        Ok(()) => seq![MessageView::Log(package + " installed successfully\n"@)],
        Err(e) => seq![
            MessageView::Log("Failed to install "@ + package + ": "@ + description(e) + "\n"@),
            MessageView::ShowDialog {
                title: "Installation Failed"@,
                message: "Failed to install "@ + package + ":\n"@ + description(e),
                is_error: true,
            },
        ],
    }
}

/// What is said of an installation of the toolchain that failed.
pub open spec fn rust_install_failure(brew: Seq<char>, report: RunReportView) -> Seq<MessageView> {
    match outcome_of(Seq::empty(), install_command(brew, "rust"@), report) {
        Ok(()) => Seq::empty(),
        Err(e) => seq![
            MessageView::Log("Failed to install Rust: "@ + description(e) + "\n"@),
            MessageView::ShowDialog {
                title: "Installation Error"@,
                message: "Failed to install Rust: "@ + description(e)
                    + "\n\nPlease install manually from https://rustup.rs"@,
                is_error: true,
            },
        ],
    }
}

/// What a check says on an event.
pub open spec fn deps_narration(v: DepsView, event: EventView) -> Seq<MessageView> {
    match (v.stage, event) {
        (DepsStage::CheckPackage(i), EventView::Checked(installed)) => if i < v.packages.len() {
            seq![
                MessageView::Log(
                    (if installed {
                        "  ok "@
                    } else {
                        "  missing "@
                    }) + v.packages[i as int] + "\n"@,
                ),
            ] + (match stage_after_package(v, i as int, installed) {
                DepsStage::ProbeRustc => seq![
                    MessageView::Log("\nAll Homebrew packages are installed!\n"@),
                ] + toolchain_opening(),
                DepsStage::Confirm => seq![
                    MessageView::Log(
                        "\nMissing Homebrew packages: "@ + join(
                            missing_after(v, i as int, installed),
                            ", "@,
                        ) + "\n"@,
                    ),
                ],
                _ => Seq::empty(),
            })
        } else {
            Seq::empty()
        },
        (DepsStage::Confirm, EventView::Confirmed(reply)) => if reply == Some(true) {
            install_opening(v, 0)
        } else {
            seq![
                MessageView::Log("\nDependencies not installed. Compilation may fail.\n"@),
            ] + toolchain_opening()
        },
        (DepsStage::Install(i), EventView::Ran(report)) => if i < v.missing.len() {
            install_report(v.brew, v.missing[i as int], report) + install_opening(v, i + 1)
        } else {
            Seq::empty()
        },
        (DepsStage::ProbeRustc, EventView::Probed(found)) => seq![found_note("rustc"@, found)],
        (DepsStage::ProbeCargo, EventView::Probed(found)) => seq![found_note("cargo"@, found)] + (
        if v.rustc is Some && found is Some {
            deps_closing(true)
        } else {
            seq![
                MessageView::Log(
                    "\nRust toolchain not found or incomplete!\nInstalling Rust via Homebrew...\n"@,
                ),
            ]
        }),
        (DepsStage::BrewInfo, EventView::Checked(known)) => if known {
            seq![
                MessageView::Log("Installing rust from Homebrew...\n"@),
                MessageView::Log("\n$ "@ + install_command(v.brew, "rust"@) + "\n"@),
            ]
        } else {
            seq![
                MessageView::Log("Rust formula not found in Homebrew\n"@),
                MessageView::ShowDialog {
                    title: "Rust Installation Failed"@,
                    message: MANUAL_INSTALL@,
                    is_error: true,
                },
            ] + deps_closing(false)
        },
        (DepsStage::InstallRust, EventView::Ran(report)) => if succeeded(report) {
            seq![MessageView::Log("\nVerifying Rust installation...\n"@)]
        } else {
            rust_install_failure(v.brew, report) + deps_closing(false)
        },
        (DepsStage::ReprobeCargo, EventView::Probed(found)) => if v.rustc is Some && found
            is Some {
            seq![found_note("rustc"@, v.rustc), found_note("cargo"@, found)] + deps_closing(true)
        } else {
            seq![
                MessageView::Log(
                    "Rust installation may have succeeded but binaries not found in PATH\nYou may need to restart the app or your terminal\n"@,
                ),
                MessageView::ShowDialog {
                    title: "Rust Installation"@,
                    message: NOT_IN_PATH@,
                    is_error: false,
                },
            ] + deps_closing(false)
        },
        _ => Seq::empty(),
    }
}

/// The packages that both projects need.
pub fn brew_packages() -> (packages: Vec<String>)
    ensures
        views(packages@) == required_packages(),
{
    let mut packages: Vec<String> = Vec::new();
    packages.push(String::from_str("automake"));
    packages.push(String::from_str("libtool"));
    packages.push(String::from_str("pkg-config"));
    packages.push(String::from_str("boost"));
    packages.push(String::from_str("miniupnpc"));
    packages.push(String::from_str("zeromq"));
    packages.push(String::from_str("sqlite"));
    packages.push(String::from_str("python"));
    packages.push(String::from_str("cmake"));
    packages.push(String::from_str("llvm"));
    packages.push(String::from_str("libevent"));
    packages.push(String::from_str("rocksdb"));
    packages.push(String::from_str("rust"));
    packages.push(String::from_str("git"));
    assert(views(packages@) =~= required_packages());
    packages
}

fn first_of(list: &Vec<String>, n: usize) -> (head: Vec<String>)
    ensures
        views(head@) == leading(views(list@), n as nat),
{
    let mut head: Vec<String> = Vec::new();
    let mut i: usize = 0;
    while i < list.len() && i < n
        invariant
            i <= list.len(),
            i <= n,
            views(head@) == views(list@).take(i as int),
        decreases list.len() - i,
    {
        let ghost before = views(head@);
        head.push(list[i].clone());
        assert(views(head@) =~= before.push(list@[i as int]@));
        assert(views(head@) =~= views(list@).take(i + 1));
        i += 1;
    }
    assert(views(list@).take(list.len() as int) =~= views(list@));
    head
}

/// The question whether to install the missing packages.
pub fn missing_packages_question(missing: &Vec<String>) -> (question: String)
    ensures
        question@ == install_question(views(missing@)),
{
    let count = missing.len();
    let mut question = String::from_str("Found ");
    question.append(decimal_string(count as u64).as_str());
    if count == 1 {
        question.append(" missing package:\n\n");
    } else {
        question.append(" missing packages:\n\n");
    }
    let preview = first_of(missing, PREVIEW);
    question.append(join_strings(&preview, ", ").as_str());
    if count > PREVIEW {
        question.append(", and ");
        question.append(decimal_string((count - PREVIEW) as u64).as_str());
        question.append(" more");
    } else {
        assert(question@ + Seq::<char>::empty() =~= question@);
    }
    question.append("\n\nInstall all missing packages now?");
    question
}

fn argv3(a: &str, b: &str, c: &str) -> (argv: Vec<String>)
    ensures
        views(argv@) == seq![a@, b@, c@],
{
    let mut argv: Vec<String> = Vec::new();
    argv.push(String::from_str(a));
    argv.push(String::from_str(b));
    argv.push(String::from_str(c));
    assert(views(argv@) =~= seq![a@, b@, c@]);
    argv
}

fn argv2(a: &str, b: &str) -> (argv: Vec<String>)
    ensures
        views(argv@) == seq![a@, b@],
{
    let mut argv: Vec<String> = Vec::new();
    argv.push(String::from_str(a));
    argv.push(String::from_str(b));
    assert(views(argv@) =~= seq![a@, b@]);
    argv
}

fn text3(a: &str, b: &str, c: &str) -> (s: String)
    ensures
        s@ == a@ + b@ + c@,
{
    let mut s = String::from_str(a);
    s.append(b);
    s.append(c);
    s
}

fn found_message(tool: &str, found: &Option<String>) -> (m: AppMessage)
    ensures
        m@ == found_note(tool@, optional_text(*found)),
{
    match found {
        Some(version) => {
            let mut text = String::from_str(tool);
            text.append(" found: ");
            text.append(version.as_str());
            text.append("\n");
            AppMessage::Log(text)
        },
        None => {
            let mut text = String::from_str(tool);
            text.append(" not found in PATH\n");
            AppMessage::Log(text)
        },
    }
}

fn closing(ready: bool) -> (messages: Vec<AppMessage>)
    ensures
        message_views(messages@) == deps_closing(ready),
{
    let mut messages: Vec<AppMessage> = Vec::new();
    messages.push(log("\n=== Dependency Check Complete ===\n"));
    if ready {
        messages.push(log("\nRust toolchain is ready!\n"));
        messages.push(
            AppMessage::ShowDialog {
                title: String::from_str("Dependency Check"),
                message: String::from_str(ALL_READY),
                is_error: false,
            },
        );
    } else {
        messages.push(log("\nRust toolchain needs attention (see messages above)\n"));
        messages.push(
            AppMessage::ShowDialog {
                title: String::from_str("Dependency Check"),
                message: String::from_str(NEED_ATTENTION),
                is_error: false,
            },
        );
    }
    messages.push(AppMessage::TaskDone);
    assert(message_views(messages@) =~= deps_closing(ready));
    messages
}

fn toolchain_messages() -> (messages: Vec<AppMessage>)
    ensures
        message_views(messages@) == toolchain_opening(),
{
    let mut messages: Vec<AppMessage> = Vec::new();
    messages.push(log("\n=== Checking Rust Toolchain ===\n"));
    assert(message_views(messages@) =~= toolchain_opening());
    messages
}

fn one(message: AppMessage) -> (messages: Vec<AppMessage>)
    ensures
        message_views(messages@) == seq![message@],
{
    let mut messages: Vec<AppMessage> = Vec::new();
    messages.push(message);
    assert(message_views(messages@) =~= seq![message@]);
    messages
}

fn two(first: AppMessage, second: AppMessage) -> (messages: Vec<AppMessage>)
    ensures
        message_views(messages@) == seq![first@, second@],
{
    let mut messages: Vec<AppMessage> = Vec::new();
    messages.push(first);
    messages.push(second);
    assert(message_views(messages@) =~= seq![first@, second@]);
    messages
}

fn none() -> (messages: Vec<AppMessage>)
    ensures
        message_views(messages@) == Seq::<MessageView>::empty(),
{
    let messages: Vec<AppMessage> = Vec::new();
    assert(message_views(messages@) =~= Seq::<MessageView>::empty());
    messages
}

impl DependencyCheck {
    /// A check that uses the package manager at `brew`.
    pub fn new(brew: &str) -> (check: DependencyCheck)
        ensures
            check@ == deps_start(brew@),
    {
        let missing: Vec<String> = Vec::new();
        assert(views(missing@) =~= Seq::<Seq<char>>::empty());
        DependencyCheck {
            brew: String::from_str(brew),
            packages: brew_packages(),
            missing,
            rustc: None,
            stage: DepsStage::CheckPackage(0),
        }
    }

    /// What is said when the check starts.
    pub fn opening(&self) -> (messages: Vec<AppMessage>)
        ensures
            message_views(messages@) == deps_opening(self@),
    {
        let mut messages: Vec<AppMessage> = Vec::new();
        messages.push(log("\n=== Checking System Dependencies ===\n"));
        messages.push(AppMessage::Log(text3("Homebrew found at: ", self.brew.as_str(), "\n")));
        messages.push(log("\nChecking Homebrew packages...\n"));
        assert(message_views(messages@) =~= deps_opening(self@));
        messages
    }

    fn install_text(&self, package: &str) -> (command: String)
        ensures
            command@ == install_command(self.brew@, package@),
    {
        text3(self.brew.as_str(), " install ", package)
    }

    /// What to do next; nothing once the check is over.
    pub fn request(&self) -> (request: Option<Request>)
        ensures
            optional_request(request) == deps_request(self@),
    {
        match self.stage {
            DepsStage::CheckPackage(i) => {
                if i < self.packages.len() {
                    Some(
                        Request::Check {
                            argv: argv3(self.brew.as_str(), "list", self.packages[i].as_str()),
                        },
                    )
                } else {
                    None
                }
            },
            DepsStage::Confirm => Some(
                Request::Confirm {
                    title: String::from_str("Install Missing Dependencies"),
                    message: missing_packages_question(&self.missing),
                },
            ),
            DepsStage::Install(i) => {
                if i < self.missing.len() {
                    Some(
                        Request::Run {
                            command: self.install_text(self.missing[i].as_str()),
                            cwd: None,
                        },
                    )
                } else {
                    None
                }
            },
            DepsStage::ProbeRustc => Some(Request::Probe { argv: argv2("rustc", "--version") }),
            DepsStage::ProbeCargo => Some(Request::Probe { argv: argv2("cargo", "--version") }),
            DepsStage::BrewInfo => Some(
                Request::Check { argv: argv3(self.brew.as_str(), "info", "rust") },
            ),
            DepsStage::InstallRust => Some(
                Request::Run { command: self.install_text("rust"), cwd: None },
            ),
            DepsStage::Settle => Some(Request::Pause { seconds: SETTLE_SECONDS }),
            DepsStage::ReprobeRustc => Some(Request::Probe { argv: argv2("rustc", "--version") }),
            DepsStage::ReprobeCargo => Some(Request::Probe { argv: argv2("cargo", "--version") }),
            DepsStage::Done(_) => None,
        }
    }

    /// Whether the toolchain is ready; nothing while the check is under way.
    pub fn outcome(&self) -> (outcome: Option<bool>)
        ensures
            outcome == deps_outcome(self@),
    {
        match self.stage {
            DepsStage::Done(ready) => Some(ready),
            _ => None,
        }
    }

    fn install_messages(&self, i: usize) -> (messages: Vec<AppMessage>)
        ensures
            message_views(messages@) == install_opening(self@, i as int),
    {
        if i < self.missing.len() {
            let package = self.missing[i].as_str();
            two(
                AppMessage::Log(text3("\nInstalling ", package, "...\n")),
                AppMessage::Log(command_banner(self.install_text(package).as_str())),
            )
        } else {
            toolchain_messages()
        }
    }

    fn install_stage_for(&self, i: usize) -> (stage: DepsStage)
        ensures
            stage == install_stage(self@, i as int),
    {
        if i < self.missing.len() {
            DepsStage::Install(i)
        } else {
            DepsStage::ProbeRustc
        }
    }

    fn on_package(&mut self, i: usize, installed: bool) -> (messages: Vec<AppMessage>)
        requires
            old(self).stage == DepsStage::CheckPackage(i),
            i < old(self).packages.len(),
        ensures
            final(self)@ == deps_next(old(self)@, EventView::Checked(installed)),
            message_views(messages@) == deps_narration(old(self)@, EventView::Checked(installed)),
    {
        let label = if installed {
            "  ok "
        } else {
            "  missing "
        };
        let mut messages = one(
            AppMessage::Log(text3(label, self.packages[i].as_str(), "\n")),
        );
        if !installed {
            let ghost before = views(self.missing@);
            let package = self.packages[i].clone();
            self.missing.push(package);
            assert(views(self.missing@) =~= before.push(old(self)@.packages[i as int]));
        }
        if i + 1 < self.packages.len() {
            append_messages(&mut messages, none());
            self.stage = DepsStage::CheckPackage(i + 1);
        } else if self.missing.len() == 0 {
            let mut more = one(log("\nAll Homebrew packages are installed!\n"));
            append_messages(&mut more, toolchain_messages());
            append_messages(&mut messages, more);
            self.stage = DepsStage::ProbeRustc;
        } else {
            let list = join_strings(&self.missing, ", ");
            append_messages(
                &mut messages,
                one(AppMessage::Log(text3("\nMissing Homebrew packages: ", list.as_str(), "\n"))),
            );
            self.stage = DepsStage::Confirm;
        }
        messages
    }

    fn on_install(&mut self, i: usize, event: &Event) -> (messages: Vec<AppMessage>)
        requires
            old(self).stage == DepsStage::Install(i),
            i < old(self).missing.len(),
        ensures
            final(self)@ == deps_next(old(self)@, event@),
            message_views(messages@) == deps_narration(old(self)@, event@),
    {
        match event {
            Event::Ran(report) => {
                let package = self.missing[i].as_str();
                let command = self.install_text(package);
                let mut messages = match command_outcome("", command.as_str(), report) {
                    Ok(()) => one(AppMessage::Log(text3("", package, " installed successfully\n"))),
                    Err(e) => {
                        let reason = e.describe();
                        let mut line = String::from_str("Failed to install ");
                        line.append(package);
                        line.append(": ");
                        line.append(reason.as_str());
                        line.append("\n");
                        let mut notice = String::from_str("Failed to install ");
                        notice.append(package);
                        notice.append(":\n");
                        notice.append(reason.as_str());
                        two(
                            AppMessage::Log(line),
                            AppMessage::ShowDialog {
                                title: String::from_str("Installation Failed"),
                                message: notice,
                                is_error: true,
                            },
                        )
                    },
                };
                proof {
                    assert(""@ =~= Seq::<char>::empty()) by {
                        reveal_strlit("");
                    }
                    assert(Seq::<char>::empty() + self.missing@[i as int]@ =~= self.missing@[i
                        as int]@);
                }
                if i < usize::MAX {
                    append_messages(&mut messages, self.install_messages(i + 1));
                    self.stage = self.install_stage_for(i + 1);
                } else {
                    append_messages(&mut messages, toolchain_messages());
                    self.stage = DepsStage::ProbeRustc;
                }
                messages
            },
            _ => none(),
        }
    }

    fn on_install_rust(&mut self, event: &Event) -> (messages: Vec<AppMessage>)
        requires
            old(self).stage == DepsStage::InstallRust,
        ensures
            final(self)@ == deps_next(old(self)@, event@),
            message_views(messages@) == deps_narration(old(self)@, event@),
    {
        match event {
            Event::Ran(report) => {
                let command = self.install_text("rust");
                proof {
                    assert(""@ =~= Seq::<char>::empty()) by {
                        reveal_strlit("");
                    }
                }
                match command_outcome("", command.as_str(), report) {
                    Ok(()) => {
                        self.stage = DepsStage::Settle;
                        one(log("\nVerifying Rust installation...\n"))
                    },
                    Err(e) => {
                        let reason = e.describe();
                        let mut notice = String::from_str("Failed to install Rust: ");
                        notice.append(reason.as_str());
                        notice.append("\n\nPlease install manually from https://rustup.rs");
                        let mut messages = two(
                            AppMessage::Log(text3("Failed to install Rust: ", reason.as_str(), "\n")),
                            AppMessage::ShowDialog {
                                title: String::from_str("Installation Error"),
                                message: notice,
                                is_error: true,
                            },
                        );
                        append_messages(&mut messages, closing(false));
                        self.stage = DepsStage::Done(false);
                        messages
                    },
                }
            },
            _ => none(),
        }
    }

    fn on_cargo(&mut self, again: bool, found: &Option<String>) -> (messages: Vec<AppMessage>)
        requires
            old(self).stage == if again {
                DepsStage::ReprobeCargo
            } else {
                DepsStage::ProbeCargo
            },
        ensures
            final(self)@ == deps_next(old(self)@, EventView::Probed(optional_text(*found))),
            message_views(messages@) == deps_narration(
                old(self)@,
                EventView::Probed(optional_text(*found)),
            ),
    {
        let both = self.rustc.is_some() && found.is_some();
        if again {
            let mut messages = if both {
                two(found_message("rustc", &self.rustc), found_message("cargo", found))
            } else {
                two(
                    log(
                        "Rust installation may have succeeded but binaries not found in PATH\nYou may need to restart the app or your terminal\n",
                    ),
                    AppMessage::ShowDialog {
                        title: String::from_str("Rust Installation"),
                        message: String::from_str(NOT_IN_PATH),
                        is_error: false,
                    },
                )
            };
            append_messages(&mut messages, closing(both));
            self.stage = DepsStage::Done(both);
            messages
        } else {
            let mut messages = one(found_message("cargo", found));
            if both {
                append_messages(&mut messages, closing(true));
                self.stage = DepsStage::Done(true);
            } else {
                append_messages(
                    &mut messages,
                    one(
                        log(
                            "\nRust toolchain not found or incomplete!\nInstalling Rust via Homebrew...\n",
                        ),
                    ),
                );
                self.stage = DepsStage::BrewInfo;
            }
            messages
        }
    }

    /// Takes in what the outside world reported and says what the observer
    /// should hear of it.
    pub fn advance(&mut self, event: &Event) -> (messages: Vec<AppMessage>)
        ensures
            final(self)@ == deps_next(old(self)@, event@),
            message_views(messages@) == deps_narration(old(self)@, event@),
    {
        match (self.stage, event) {
            (DepsStage::CheckPackage(i), Event::Checked(installed)) => {
                if i < self.packages.len() {
                    self.on_package(i, *installed)
                } else {
                    none()
                }
            },
            (DepsStage::Confirm, Event::Confirmed(reply)) => {
                if resolve_confirmation(*reply) {
                    let messages = self.install_messages(0);
                    self.stage = self.install_stage_for(0);
                    messages
                } else {
                    let mut messages = one(
                        log("\nDependencies not installed. Compilation may fail.\n"),
                    );
                    append_messages(&mut messages, toolchain_messages());
                    self.stage = DepsStage::ProbeRustc;
                    messages
                }
            },
            (DepsStage::Install(i), _) => {
                if i < self.missing.len() {
                    self.on_install(i, event)
                } else {
                    none()
                }
            },
            (DepsStage::ProbeRustc, Event::Probed(found)) => {
                let messages = one(found_message("rustc", found));
                self.rustc = found.clone();
                self.stage = DepsStage::ProbeCargo;
                messages
            },
            (DepsStage::ProbeCargo, Event::Probed(found)) => self.on_cargo(false, found),
            (DepsStage::BrewInfo, Event::Checked(known)) => {
                if *known {
                    self.stage = DepsStage::InstallRust;
                    two(
                        log("Installing rust from Homebrew...\n"),
                        AppMessage::Log(command_banner(self.install_text("rust").as_str())),
                    )
                } else {
                    let mut messages = two(
                        log("Rust formula not found in Homebrew\n"),
                        AppMessage::ShowDialog {
                            title: String::from_str("Rust Installation Failed"),
                            message: String::from_str(MANUAL_INSTALL),
                            is_error: true,
                        },
                    );
                    append_messages(&mut messages, closing(false));
                    self.stage = DepsStage::Done(false);
                    messages
                }
            },
            (DepsStage::InstallRust, _) => self.on_install_rust(event),
            (DepsStage::Settle, Event::Resumed) => {
                self.stage = DepsStage::ReprobeRustc;
                none()
            },
            (DepsStage::ReprobeRustc, Event::Probed(found)) => {
                self.rustc = found.clone();
                self.stage = DepsStage::ReprobeCargo;
                none()
            },
            (DepsStage::ReprobeCargo, Event::Probed(found)) => self.on_cargo(true, found),
            _ => none(),
        }
    }
}

/// The check of the dependencies with the package manager at `brew`.
pub fn check_dependencies_task(brew: &str) -> (check: DependencyCheck)
    ensures
        check@ == deps_start(brew@),
{
    DependencyCheck::new(brew)
}

/// What holds of every state that a check can reach: the package that is
/// asked about, and the package that is installed, exist.
pub open spec fn deps_inv(v: DepsView) -> bool {
    match v.stage {
        DepsStage::CheckPackage(i) => i < v.packages.len(),
        DepsStage::Install(i) => i < v.missing.len(),
        _ => true,
    }
}

/// A check starts in a state that it can reach, with an outstanding request.
pub proof fn lemma_deps_start_is_sound(brew: Seq<char>)
    ensures
        deps_inv(deps_start(brew)),
        deps_request(deps_start(brew)) is Some,
        deps_outcome(deps_start(brew)) is None,
{
}

/// A check asks for something exactly as long as it has no outcome.
pub proof fn lemma_deps_request_or_outcome(v: DepsView)
    requires
        deps_inv(v),
    ensures
        deps_request(v) is None <==> deps_outcome(v) is Some,
{
}

/// Nothing is installed without a yes: on any other answer, and on an
/// answer that never came, the check goes on to the toolchain and asks for
/// no installation of a missing package.
pub proof fn lemma_no_install_without_consent(v: DepsView, reply: Option<bool>)
    requires
        v.stage == DepsStage::Confirm,
        reply != Some(true),
    ensures
        deps_next(v, EventView::Confirmed(reply)).stage == DepsStage::ProbeRustc,
        deps_next(v, EventView::Confirmed(reply)).missing == v.missing,
{
}

/// One event keeps a check within the states that it can reach, and the
/// end of the task is announced on it exactly if the check ends on it.
pub proof fn lemma_deps_step(v: DepsView, event: EventView)
    requires
        deps_inv(v),
    ensures
        deps_inv(deps_next(v, event)),
        announced_ends(deps_narration(v, event)) == if deps_outcome(v) is None && deps_outcome(
            deps_next(v, event),
        ) is Some {
            1nat
        } else {
            0nat
        },
{
    let said = deps_narration(v, event);
    let next = deps_next(v, event);
    if deps_outcome(v) is None && deps_outcome(next) is Some {
        let ready = deps_outcome(next)->0;
        let end = deps_closing(ready);
        let lead = said.take(said.len() - 4);
        assert(said =~= lead + end);
        assert forall|i: int| 0 <= i < lead.len() implies !(#[trigger] lead[i] is TaskDone) by {
            assert(lead[i] == said[i]);
        }
        lemma_no_end_announced(lead);
        let notes = end.drop_last();
        assert forall|i: int| 0 <= i < notes.len() implies !(#[trigger] notes[i] is TaskDone) by {}
        lemma_no_end_announced(notes);
        assert(end.last() is TaskDone);
        assert(announced_ends(end) == 1);
        lemma_announced_ends_add(lead, end);
    } else {
        assert forall|i: int| 0 <= i < said.len() implies !(#[trigger] said[i] is TaskDone) by {}
        lemma_no_end_announced(said);
    }
}

} // verus!
