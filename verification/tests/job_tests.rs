use bitforge::errors::Exit;
use bitforge::job::{is_version_chosen, CompileJob, Target};
use bitforge::messages::{AppMessage, CopyReport, DirEntry, Event, Request};
use bitforge::process::RunReport;

/// Answers every request as a world would in which each command exits with
/// `exit` and the artifact directory holds `artifacts`.
fn answer(request: &Request, exit: i32, artifacts: &[&str], cargo: bool) -> Event {
    match request {
        Request::MakeDir { .. } => Event::Filesystem(None),
        Request::PathExists { .. } => Event::Exists(false),
        Request::Probe { .. } => {
            if cargo {
                Event::Probed(Some("1.80.0".to_string()))
            } else {
                Event::Probed(None)
            }
        }
        Request::Check { .. } => Event::Checked(true),
        Request::RemoveTree { .. } => Event::Filesystem(None),
        Request::Run { command, .. } => {
            if command.starts_with("git clone") {
                Event::Ran(RunReport::Finished(Exit::Code(0)))
            } else {
                Event::Ran(RunReport::Finished(Exit::Code(exit)))
            }
        }
        Request::ListDir { .. } => Event::Listed(
            artifacts
                .iter()
                .map(|p| DirEntry { path: p.to_string(), is_file: true, mode: 0o755 })
                .collect(),
        ),
        Request::CopyFile { .. } => Event::Copied(CopyReport::Copied),
        Request::Confirm { .. } => Event::Confirmed(None),
        Request::Pause { .. } => Event::Resumed,
    }
}

fn run(job: &mut CompileJob, exit: i32, artifacts: &[&str], cargo: bool) -> Vec<AppMessage> {
    let mut heard = job.opening();
    let mut rounds = 0;
    while let Some(request) = job.request() {
        rounds += 1;
        assert!(rounds < 100);
        heard.extend(job.advance(&answer(&request, exit, artifacts, cargo)));
    }
    assert!(job.is_done());
    heard
}

fn count_done(heard: &[AppMessage]) -> usize {
    heard.iter().filter(|m| **m == AppMessage::TaskDone).count()
}

fn errors(heard: &[AppMessage]) -> Vec<String> {
    heard
        .iter()
        .filter_map(|m| match m {
            AppMessage::ShowDialog { message, is_error: true, .. } => Some(message.clone()),
            _ => None,
        })
        .collect()
}

fn progress(heard: &[AppMessage]) -> Vec<u8> {
    heard
        .iter()
        .filter_map(|m| match m {
            AppMessage::Progress(p) => Some(*p),
            _ => None,
        })
        .collect()
}

#[test]
fn job_needs_a_chosen_version() {
    assert!(is_version_chosen("v27.0"));
    assert!(!is_version_chosen(""));
    assert!(!is_version_chosen("Loading..."));
    assert_eq!(
        CompileJob::new(Target::Bitcoin, false, "Loading...", "v0.10.5", "/b", 2),
        Err("Please wait for Bitcoin versions to load, or click Refresh".to_string())
    );
    assert_eq!(
        CompileJob::new(Target::Both, false, "v27.0", "", "/b", 2),
        Err("Please wait for Electrs versions to load, or click Refresh".to_string())
    );
    assert_eq!(
        CompileJob::new(Target::Both, false, "", "", "/b", 2),
        Err("Please wait for Bitcoin versions to load, or click Refresh".to_string())
    );
    assert!(CompileJob::new(Target::Electrs, false, "Loading...", "v0.10.5", "/b", 2).is_ok());
    assert!(CompileJob::new(Target::Bitcoin, false, "v27.0", "", "/b", 2).is_ok());
}

#[test]
fn build_that_succeeds_with_no_artifacts_is_reported_once() {
    let mut job = CompileJob::new(Target::Bitcoin, false, "v27.0", "", "/b", 2).unwrap();
    let heard = run(&mut job, 0, &[], true);
    assert_eq!(count_done(&heard), 1);
    assert_eq!(heard.last(), Some(&AppMessage::TaskDone));
    assert!(job.failed);
    assert_eq!(
        errors(&heard),
        vec![
            "Build appeared to succeed but no binaries were found in /b/bitcoin-27.0/build/bin\nCheck the log above for linker errors."
                .to_string()
        ]
    );
    assert!(heard.contains(&AppMessage::Log(
        "\nCompilation failed: Build appeared to succeed but no binaries were found in /b/bitcoin-27.0/build/bin\nCheck the log above for linker errors.\n"
            .to_string()
    )));
    assert_eq!(job.advance(&Event::Resumed), Vec::new());
    assert_eq!(job.request(), None);
}

#[test]
fn single_target_succeeds() {
    let mut job = CompileJob::new(Target::Bitcoin, false, "v27.0", "", "/b", 2).unwrap();
    let heard = run(&mut job, 0, &["/b/bitcoin-27.0/build/bin/bitcoind"], true);
    assert_eq!(count_done(&heard), 1);
    assert!(!job.failed);
    assert_eq!(job.outputs, vec!["/b/binaries/bitcoin-27.0".to_string()]);
    assert_eq!(progress(&heard), vec![5, 20, 45, 90, 100, 100]);
    let n = heard.len();
    assert_eq!(
        heard[n - 2],
        AppMessage::ShowDialog {
            title: "Compilation Complete".to_string(),
            message: "Bitcoin compilation completed successfully!\n\nBinaries saved to:\n/b/binaries/bitcoin-27.0"
                .to_string(),
            is_error: false,
        }
    );
    assert_eq!(heard[n - 1], AppMessage::TaskDone);
    assert!(errors(&heard).is_empty());
}

#[test]
fn both_targets_share_the_progress_scale() {
    let mut job = CompileJob::new(Target::Both, false, "v27.0", "v0.10.5", "/b", 2).unwrap();
    let heard = run(&mut job, 0, &["/b/bitcoin-27.0/build/bin/bitcoind"], true);
    assert_eq!(count_done(&heard), 1);
    assert_eq!(
        job.outputs,
        vec!["/b/binaries/bitcoin-27.0".to_string(), "/b/binaries/electrs-0.10.5".to_string()]
    );
    let seen = progress(&heard);
    assert_eq!(seen, vec![5, 10, 22, 45, 50, 65, 92, 100, 100]);
    assert!(seen.windows(2).all(|w| w[0] <= w[1]));
    let n = heard.len();
    assert_eq!(
        heard[n - 2],
        AppMessage::ShowDialog {
            title: "Compilation Complete".to_string(),
            message: "Both compilation completed successfully!\n\nBinaries saved to:\n/b/binaries/bitcoin-27.0\n/b/binaries/electrs-0.10.5"
                .to_string(),
            is_error: false,
        }
    );
}

#[test]
fn first_failure_stops_the_second_project_by_default() {
    let mut job = CompileJob::new(Target::Both, false, "v27.0", "v0.10.5", "/b", 2).unwrap();
    let heard = run(&mut job, 1, &[], true);
    assert_eq!(count_done(&heard), 1);
    assert_eq!(heard.last(), Some(&AppMessage::TaskDone));
    assert_eq!(errors(&heard).len(), 1);
    assert!(errors(&heard)[0].starts_with("cmake configure failed."));
    assert!(job.outputs.is_empty());
    assert!(!heard.iter().any(|m| matches!(m, AppMessage::Log(t) if t.contains("ELECTRS"))));
}

#[test]
fn second_project_is_built_after_a_failure_when_asked() {
    let mut job = CompileJob::new(Target::Both, true, "v27.0", "v0.10.5", "/b", 2).unwrap();
    let mut heard = job.opening();
    let mut rounds = 0;
    while let Some(request) = job.request() {
        rounds += 1;
        assert!(rounds < 100);
        let event = match &request {
            Request::Run { command, .. } if command.starts_with("cmake") => {
                Event::Ran(RunReport::Finished(Exit::Signal))
            }
            other => answer(other, 0, &[], true),
        };
        heard.extend(job.advance(&event));
    }
    assert_eq!(count_done(&heard), 1);
    assert!(job.failed);
    assert_eq!(job.outputs, vec!["/b/binaries/electrs-0.10.5".to_string()]);
    assert_eq!(errors(&heard).len(), 1);
    assert!(heard.iter().any(|m| matches!(m, AppMessage::Log(t) if t.contains("COMPILING ELECTRS"))));
    assert!(!heard.iter().any(|m| matches!(m, AppMessage::ShowDialog { is_error: false, .. })));
}

#[test]
fn missing_toolchain_is_reported_and_ends_the_task() {
    let mut job = CompileJob::new(Target::Electrs, false, "", "v0.10.5", "/b", 2).unwrap();
    let heard = run(&mut job, 0, &[], false);
    assert_eq!(count_done(&heard), 1);
    assert!(errors(&heard).contains(&"cargo not found in PATH".to_string()));
    assert!(!heard.iter().any(|m| matches!(m, AppMessage::Log(t) if t.starts_with("\n$ "))));
}
