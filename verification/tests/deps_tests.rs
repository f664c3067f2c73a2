use bitforge::deps::{brew_packages, missing_packages_question, DependencyCheck, DepsStage};
use bitforge::errors::Exit;
use bitforge::messages::{AppMessage, Event, Request};
use bitforge::process::RunReport;

const BREW: &str = "/opt/homebrew/bin/brew";

fn strings(items: &[&str]) -> Vec<String> {
    items.iter().map(|s| s.to_string()).collect()
}

struct Machine {
    installed: Vec<String>,
    rust_known: bool,
    rust_after_install: bool,
    rustc: bool,
    cargo: bool,
    reply: Option<bool>,
    install_exit: i32,
    asked: Vec<Request>,
}

fn drive(check: &mut DependencyCheck, m: &mut Machine) -> Vec<AppMessage> {
    let mut heard = check.opening();
    let mut rounds = 0;
    while let Some(request) = check.request() {
        rounds += 1;
        assert!(rounds < 100);
        m.asked.push(request.clone());
        let event = match &request {
            Request::Check { argv } if argv[1] == "list" => {
                Event::Checked(m.installed.contains(&argv[2]))
            }
            Request::Check { .. } => Event::Checked(m.rust_known),
            Request::Confirm { .. } => Event::Confirmed(m.reply),
            Request::Run { command, .. } => {
                if command.ends_with(" install rust") && m.install_exit == 0 && m.rust_after_install {
                    m.rustc = true;
                    m.cargo = true;
                }
                Event::Ran(RunReport::Finished(Exit::Code(m.install_exit)))
            }
            Request::Probe { argv } if argv[0] == "rustc" => {
                Event::Probed(if m.rustc { Some("rustc 1.80.0".to_string()) } else { None })
            }
            Request::Probe { .. } => {
                Event::Probed(if m.cargo { Some("cargo 1.80.0".to_string()) } else { None })
            }
            Request::Pause { seconds } => {
                assert_eq!(*seconds, 2);
                Event::Resumed
            }
            other => panic!("unexpected request {:?}", other),
        };
        heard.extend(check.advance(&event));
    }
    heard
}

fn all_installed() -> Machine {
    Machine {
        installed: brew_packages(),
        rust_known: true,
        rust_after_install: true,
        rustc: true,
        cargo: true,
        reply: None,
        install_exit: 0,
        asked: Vec::new(),
    }
}

fn runs(asked: &[Request]) -> Vec<String> {
    asked
        .iter()
        .filter_map(|r| match r {
            Request::Run { command, .. } => Some(command.clone()),
            _ => None,
        })
        .collect()
}

#[test]
fn required_packages_are_listed() {
    assert_eq!(
        brew_packages(),
        strings(&[
            "automake", "libtool", "pkg-config", "boost", "miniupnpc", "zeromq", "sqlite",
            "python", "cmake", "llvm", "libevent", "rocksdb", "rust", "git",
        ])
    );
}

#[test]
fn question_names_up_to_five_packages() {
    assert_eq!(
        missing_packages_question(&strings(&["cmake"])),
        "Found 1 missing package:\n\ncmake\n\nInstall all missing packages now?"
    );
    assert_eq!(
        missing_packages_question(&strings(&["a", "b", "c", "d", "e"])),
        "Found 5 missing packages:\n\na, b, c, d, e\n\nInstall all missing packages now?"
    );
    assert_eq!(
        missing_packages_question(&strings(&["a", "b", "c", "d", "e", "f", "g"])),
        "Found 7 missing packages:\n\na, b, c, d, e, and 2 more\n\nInstall all missing packages now?"
    );
}

#[test]
fn everything_present_is_ready() {
    let mut check = DependencyCheck::new(BREW);
    let mut m = all_installed();
    let heard = drive(&mut check, &mut m);
    assert_eq!(check.outcome(), Some(true));
    assert_eq!(m.asked.len(), 16);
    assert!(runs(&m.asked).is_empty());
    assert_eq!(
        m.asked[0],
        Request::Check { argv: strings(&[BREW, "list", "automake"]) }
    );
    assert_eq!(heard[0], AppMessage::Log("\n=== Checking System Dependencies ===\n".to_string()));
    assert_eq!(heard[1], AppMessage::Log(format!("Homebrew found at: {}\n", BREW)));
    assert!(heard.contains(&AppMessage::Log("  ok cmake\n".to_string())));
    assert!(heard.contains(&AppMessage::Log("\nAll Homebrew packages are installed!\n".to_string())));
    assert!(heard.contains(&AppMessage::Log("rustc found: rustc 1.80.0\n".to_string())));
    assert_eq!(heard.iter().filter(|m| **m == AppMessage::TaskDone).count(), 1);
    assert_eq!(heard.last(), Some(&AppMessage::TaskDone));
    let n = heard.len();
    assert_eq!(
        heard[n - 2],
        AppMessage::ShowDialog {
            title: "Dependency Check".to_string(),
            message: "All dependencies are installed and ready!\n\nYou can now proceed with compilation."
                .to_string(),
            is_error: false,
        }
    );
}

#[test]
fn missing_packages_are_installed_after_a_yes() {
    let mut check = DependencyCheck::new(BREW);
    let mut m = all_installed();
    m.installed.retain(|p| p != "cmake" && p != "llvm");
    m.reply = Some(true);
    let heard = drive(&mut check, &mut m);
    assert_eq!(check.missing, strings(&["cmake", "llvm"]));
    assert_eq!(
        runs(&m.asked),
        vec![format!("{} install cmake", BREW), format!("{} install llvm", BREW)]
    );
    assert!(m.asked.contains(&Request::Confirm {
        title: "Install Missing Dependencies".to_string(),
        message: "Found 2 missing packages:\n\ncmake, llvm\n\nInstall all missing packages now?"
            .to_string(),
    }));
    assert!(heard.contains(&AppMessage::Log("  missing cmake\n".to_string())));
    assert!(heard.contains(&AppMessage::Log("\nMissing Homebrew packages: cmake, llvm\n".to_string())));
    assert!(heard.contains(&AppMessage::Log("cmake installed successfully\n".to_string())));
    assert!(heard.contains(&AppMessage::Log(format!("\n$ {} install llvm\n", BREW))));
    assert_eq!(check.outcome(), Some(true));
}

#[test]
fn nothing_is_installed_after_a_no_or_no_answer() {
    for reply in [Some(false), None] {
        let mut check = DependencyCheck::new(BREW);
        let mut m = all_installed();
        m.installed.retain(|p| p != "boost");
        m.reply = reply;
        let heard = drive(&mut check, &mut m);
        assert!(runs(&m.asked).is_empty());
        assert!(heard.contains(&AppMessage::Log(
            "\nDependencies not installed. Compilation may fail.\n".to_string()
        )));
        assert_eq!(check.outcome(), Some(true));
    }
}

#[test]
fn failed_installation_is_reported_and_the_check_goes_on() {
    let mut check = DependencyCheck::new(BREW);
    let mut m = all_installed();
    m.installed.retain(|p| p != "git" && p != "boost");
    m.reply = Some(true);
    m.install_exit = 1;
    let heard = drive(&mut check, &mut m);
    assert_eq!(runs(&m.asked).len(), 2);
    assert!(heard.contains(&AppMessage::ShowDialog {
        title: "Installation Failed".to_string(),
        message: format!(
            "Failed to install boost:\nCommand failed (exit 1): {} install boost",
            BREW
        ),
        is_error: true,
    }));
    assert!(heard.contains(&AppMessage::Log(format!(
        "Failed to install git: Command failed (exit 1): {} install git\n",
        BREW
    ))));
    assert_eq!(check.outcome(), Some(true));
}

#[test]
fn missing_toolchain_is_installed_and_found() {
    let mut check = DependencyCheck::new(BREW);
    let mut m = all_installed();
    m.rustc = false;
    m.cargo = false;
    let heard = drive(&mut check, &mut m);
    assert_eq!(runs(&m.asked), vec![format!("{} install rust", BREW)]);
    assert!(m.asked.contains(&Request::Check { argv: strings(&[BREW, "info", "rust"]) }));
    assert!(m.asked.contains(&Request::Pause { seconds: 2 }));
    assert!(heard.contains(&AppMessage::Log("rustc not found in PATH\n".to_string())));
    assert!(heard.contains(&AppMessage::Log("\nVerifying Rust installation...\n".to_string())));
    assert_eq!(check.outcome(), Some(true));
    assert_eq!(heard.iter().filter(|m| **m == AppMessage::TaskDone).count(), 1);
}

#[test]
fn unknown_formula_ends_the_check() {
    let mut check = DependencyCheck::new(BREW);
    let mut m = all_installed();
    m.cargo = false;
    m.rust_known = false;
    let heard = drive(&mut check, &mut m);
    assert!(runs(&m.asked).is_empty());
    assert_eq!(check.outcome(), Some(false));
    assert!(heard.iter().any(|x| matches!(x, AppMessage::ShowDialog { title, is_error: true, .. } if title == "Rust Installation Failed")));
    assert_eq!(heard.last(), Some(&AppMessage::TaskDone));
    let n = heard.len();
    assert!(matches!(&heard[n - 2], AppMessage::ShowDialog { message, is_error: false, .. } if message.starts_with("Some dependencies need attention.")));
}

#[test]
fn failed_toolchain_installation_ends_the_check() {
    let mut check = DependencyCheck::new(BREW);
    let mut m = all_installed();
    m.rustc = false;
    m.install_exit = 3;
    let heard = drive(&mut check, &mut m);
    assert_eq!(check.outcome(), Some(false));
    assert!(heard.contains(&AppMessage::ShowDialog {
        title: "Installation Error".to_string(),
        message: format!(
            "Failed to install Rust: Command failed (exit 3): {} install rust\n\nPlease install manually from https://rustup.rs",
            BREW
        ),
        is_error: true,
    }));
    assert!(!m.asked.contains(&Request::Pause { seconds: 2 }));
}

#[test]
fn toolchain_still_missing_after_installation() {
    let mut check = DependencyCheck::new(BREW);
    let mut m = all_installed();
    m.rustc = false;
    m.cargo = false;
    m.rust_after_install = false;
    let heard = drive(&mut check, &mut m);
    assert_eq!(check.outcome(), Some(false));
    assert!(heard.iter().any(|x| matches!(x, AppMessage::ShowDialog { title, is_error: false, .. } if title == "Rust Installation")));
    assert_eq!(heard.iter().filter(|m| **m == AppMessage::TaskDone).count(), 1);
}

#[test]
fn finished_check_ignores_events() {
    let mut check = DependencyCheck::new(BREW);
    let mut m = all_installed();
    drive(&mut check, &mut m);
    let before = check.clone();
    assert_eq!(check.advance(&Event::Checked(false)), Vec::new());
    assert_eq!(check.advance(&Event::Resumed), Vec::new());
    assert_eq!(check, before);
    assert_eq!(check.stage, DepsStage::Done(true));
}

#[test]
fn named_entry_point_starts_the_same_check() {
    assert_eq!(bitforge::deps::check_dependencies_task(BREW), DependencyCheck::new(BREW));
}
