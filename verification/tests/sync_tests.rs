use bitforge::errors::{Exit, PipelineError};
use bitforge::messages::{AppMessage, Event, Request};
use bitforge::process::RunReport;
use bitforge::sync::{SourceSync, SyncPhase};

const DIR: &str = "/build/bitcoin-27.0";
const ROOT: &str = "/build";
const URL: &str = "https://github.com/bitcoin/bitcoin.git";

fn clone_request(tag: &str) -> Request {
    Request::Run {
        command: format!(
            "git clone --progress --depth 1 --branch '{}' '{}' '{}'",
            tag, URL, DIR
        ),
        cwd: Some(ROOT.to_string()),
    }
}

fn describe_request() -> Request {
    Request::Probe {
        argv: ["git", "-C", DIR, "describe", "--tags", "--exact-match"]
            .iter()
            .map(|s| s.to_string())
            .collect(),
    }
}

/// A directory that holds at most one checkout, and counts what is done to it.
struct World {
    checkout: Option<String>,
    clones: usize,
    removals: usize,
    asked: Vec<Request>,
}

fn run_sync(world: &mut World, tag: &str) -> Result<(), PipelineError> {
    let mut sync = SourceSync::new(DIR, ROOT, tag, URL);
    let mut rounds = 0;
    while let Some(request) = sync.request() {
        rounds += 1;
        assert!(rounds < 10);
        world.asked.push(request.clone());
        let event = match request {
            Request::PathExists { .. } => Event::Exists(world.checkout.is_some()),
            Request::Probe { .. } => Event::Probed(world.checkout.clone()),
            Request::RemoveTree { .. } => {
                world.removals += 1;
                world.checkout = None;
                Event::Filesystem(None)
            }
            Request::Run { .. } => {
                world.clones += 1;
                world.checkout = Some(tag.to_string());
                Event::Ran(RunReport::Finished(Exit::Code(0)))
            }
            other => panic!("unexpected request {:?}", other),
        };
        sync.advance(&event);
    }
    sync.outcome().unwrap()
}

#[test]
fn invalid_tag_fails_before_any_request() {
    let mut sync = SourceSync::new(DIR, ROOT, "v1; rm -rf /", URL);
    assert_eq!(sync.request(), None);
    assert_eq!(
        sync.outcome(),
        Some(Err(PipelineError::InvalidTag { tag: "v1; rm -rf /".to_string() }))
    );
    for event in [
        Event::Exists(true),
        Event::Probed(Some("v1".to_string())),
        Event::Filesystem(None),
        Event::Ran(RunReport::Finished(Exit::Code(0))),
    ] {
        assert_eq!(sync.advance(&event), Vec::<AppMessage>::new());
        assert_eq!(sync.request(), None);
    }
    assert_eq!(
        sync.outcome(),
        Some(Err(PipelineError::InvalidTag { tag: "v1; rm -rf /".to_string() }))
    );
}

#[test]
fn fresh_directory_is_cloned() {
    let mut sync = SourceSync::new(DIR, ROOT, "v27.0", URL);
    assert_eq!(sync.outcome(), None);
    assert_eq!(sync.request(), Some(Request::PathExists { path: DIR.to_string() }));
    let said = sync.advance(&Event::Exists(false));
    assert_eq!(
        said,
        vec![
            AppMessage::Log(format!(
                "\nCloning {} at v27.0 (shallow clone, this may take a few minutes)\n",
                URL
            )),
            AppMessage::Log(format!(
                "\n$ git clone --progress --depth 1 --branch 'v27.0' '{}' '{}'\n",
                URL, DIR
            )),
        ]
    );
    assert_eq!(sync.request(), Some(clone_request("v27.0")));
    let said = sync.advance(&Event::Ran(RunReport::Finished(Exit::Code(0))));
    assert_eq!(said, vec![AppMessage::Log(format!("Cloned to {}\n", DIR))]);
    assert_eq!(sync.request(), None);
    assert_eq!(sync.outcome(), Some(Ok(())));
}

#[test]
fn matching_checkout_is_kept() {
    let mut sync = SourceSync::new(DIR, ROOT, "v27.0", URL);
    assert_eq!(sync.advance(&Event::Exists(true)), Vec::<AppMessage>::new());
    assert_eq!(sync.request(), Some(describe_request()));
    let said = sync.advance(&Event::Probed(Some("v27.0".to_string())));
    assert_eq!(said, vec![AppMessage::Log(format!("Source already at v27.0: {}\n", DIR))]);
    assert_eq!(sync.request(), None);
    assert_eq!(sync.outcome(), Some(Ok(())));
}

#[test]
fn other_checkout_is_removed_and_cloned() {
    let mut sync = SourceSync::new(DIR, ROOT, "v27.0", URL);
    sync.advance(&Event::Exists(true));
    let said = sync.advance(&Event::Probed(Some("v26.0".to_string())));
    assert_eq!(
        said,
        vec![AppMessage::Log(
            "Existing clone is at 'v26.0', need 'v27.0'. Re-cloning...\n".to_string()
        )]
    );
    assert_eq!(sync.request(), Some(Request::RemoveTree { path: DIR.to_string() }));
    let said = sync.advance(&Event::Filesystem(None));
    assert_eq!(said.len(), 2);
    assert_eq!(sync.request(), Some(clone_request("v27.0")));
}

#[test]
fn untagged_checkout_counts_as_mismatch() {
    let mut sync = SourceSync::new(DIR, ROOT, "v27.0", URL);
    sync.advance(&Event::Exists(true));
    let said = sync.advance(&Event::Probed(None));
    assert_eq!(
        said,
        vec![AppMessage::Log("Existing clone is at '', need 'v27.0'. Re-cloning...\n".to_string())]
    );
    assert_eq!(sync.phase, SyncPhase::Remove);
}

#[test]
fn failed_removal_fails_the_sync() {
    let mut sync = SourceSync::new(DIR, ROOT, "v27.0", URL);
    sync.advance(&Event::Exists(true));
    sync.advance(&Event::Probed(Some("v26.0".to_string())));
    assert_eq!(sync.advance(&Event::Filesystem(Some("denied".to_string()))), Vec::new());
    assert_eq!(sync.request(), None);
    assert_eq!(
        sync.outcome(),
        Some(Err(PipelineError::Filesystem {
            context: format!("Failed to remove {}", DIR),
            reason: "denied".to_string(),
        }))
    );
}

#[test]
fn failed_clone_fails_the_sync() {
    let mut sync = SourceSync::new(DIR, ROOT, "v27.0", URL);
    sync.advance(&Event::Exists(false));
    assert_eq!(sync.advance(&Event::Ran(RunReport::Finished(Exit::Code(128)))), Vec::new());
    assert_eq!(
        sync.outcome(),
        Some(Err(PipelineError::CommandFailed {
            context: "git clone failed".to_string(),
            exit: Exit::Code(128),
            command: format!(
                "git clone --progress --depth 1 --branch 'v27.0' '{}' '{}'",
                URL, DIR
            ),
        }))
    );
    let mut unspawned = SourceSync::new(DIR, ROOT, "v27.0", URL);
    unspawned.advance(&Event::Exists(false));
    unspawned.advance(&Event::Ran(RunReport::NotSpawned("no sh".to_string())));
    assert!(matches!(unspawned.outcome(), Some(Err(PipelineError::SpawnFailed { .. }))));
}

#[test]
fn event_that_answers_nothing_is_ignored() {
    let mut sync = SourceSync::new(DIR, ROOT, "v27.0", URL);
    let before = sync.clone();
    assert_eq!(sync.advance(&Event::Probed(Some("v27.0".to_string()))), Vec::new());
    assert_eq!(sync.advance(&Event::Resumed), Vec::new());
    assert_eq!(sync.advance(&Event::Ran(RunReport::Finished(Exit::Code(0)))), Vec::new());
    assert_eq!(sync, before);
    assert_eq!(sync.request(), Some(Request::PathExists { path: DIR.to_string() }));
}

#[test]
fn syncing_twice_clones_once() {
    let mut world = World { checkout: None, clones: 0, removals: 0, asked: Vec::new() };
    assert_eq!(run_sync(&mut world, "v27.0"), Ok(()));
    assert_eq!(world.clones, 1);
    assert_eq!(world.removals, 0);
    world.asked.clear();
    assert_eq!(run_sync(&mut world, "v27.0"), Ok(()));
    assert_eq!(world.clones, 1);
    assert_eq!(world.removals, 0);
    assert_eq!(
        world.asked,
        vec![Request::PathExists { path: DIR.to_string() }, describe_request()]
    );
}

#[test]
fn syncing_another_tag_removes_once_and_clones_once() {
    let mut world =
        World { checkout: Some("v26.0".to_string()), clones: 0, removals: 0, asked: Vec::new() };
    assert_eq!(run_sync(&mut world, "v27.0"), Ok(()));
    assert_eq!(world.removals, 1);
    assert_eq!(world.clones, 1);
    assert_eq!(world.checkout, Some("v27.0".to_string()));
    assert_eq!(
        world.asked,
        vec![
            Request::PathExists { path: DIR.to_string() },
            describe_request(),
            Request::RemoveTree { path: DIR.to_string() },
            clone_request("v27.0"),
        ]
    );
}

#[test]
fn clone_command_quotes_its_arguments() {
    let sync = SourceSync::new("/build dir/it's", ROOT, "v1", "https://x/y.git");
    assert_eq!(
        sync.clone_command(),
        "git clone --progress --depth 1 --branch 'v1' 'https://x/y.git' '/build dir/it'\\''s'"
    );
}
