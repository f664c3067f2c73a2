use bitforge::compiler::Project;
use bitforge::github::{
    is_prerelease_tag, lowered_tag_marks_candidate, release_api, select_stable_versions,
    versions_report,
};
use bitforge::messages::{resolve_confirmation, AppMessage};
use bitforge::settings::{clamp_cores, default_cores, detect_cores};

fn strings(items: &[&str]) -> Vec<String> {
    items.iter().map(|s| s.to_string()).collect()
}

#[test]
fn prereleases_are_recognised_in_any_case() {
    assert!(is_prerelease_tag("v1.9.0-rc1"));
    assert!(is_prerelease_tag("v1.9.0-RC1"));
    assert!(is_prerelease_tag("v1.9.0Rc2"));
    assert!(!is_prerelease_tag("v2.0.0"));
    assert!(!is_prerelease_tag(""));
    assert!(!is_prerelease_tag("r-c"));
    assert!(lowered_tag_marks_candidate("v1rc"));
    assert!(!lowered_tag_marks_candidate("v1RC"));
}

#[test]
fn release_candidates_are_filtered_out() {
    let tags = strings(&["v2.0.0", "v1.9.0-rc1", "v1.8.0"]);
    assert_eq!(select_stable_versions(&tags, 10), strings(&["v2.0.0", "v1.8.0"]));
}

#[test]
fn stable_versions_are_capped() {
    let tags = strings(&["v5", "v4rc1", "v4", "v3", "V3RC", "v2", "v1"]);
    assert_eq!(select_stable_versions(&tags, 3), strings(&["v5", "v4", "v3"]));
    assert_eq!(select_stable_versions(&tags, 0), Vec::<String>::new());
    assert_eq!(select_stable_versions(&tags, 5), strings(&["v5", "v4", "v3", "v2", "v1"]));
    assert_eq!(select_stable_versions(&tags, 6), strings(&["v5", "v4", "v3", "v2", "v1"]));
    assert_eq!(select_stable_versions(&Vec::new(), 10), Vec::<String>::new());
}

#[test]
fn fetched_list_is_reported() {
    let mut tags = Vec::new();
    for i in 0..12 {
        tags.push(format!("v{}.0", 30 - i));
    }
    tags.insert(1, "v30.0rc1".to_string());
    let messages = versions_report(Project::Bitcoin, &Ok(tags.clone()));
    let mut expected: Vec<String> = tags.iter().filter(|t| !t.contains("rc")).cloned().collect();
    expected.truncate(10);
    assert_eq!(
        messages,
        vec![
            AppMessage::Log("Loaded 10 Bitcoin versions\n".to_string()),
            AppMessage::BitcoinVersionsLoaded(expected),
        ]
    );
    let electrs = versions_report(Project::Electrs, &Ok(strings(&["v0.10.5"])));
    assert_eq!(
        electrs,
        vec![
            AppMessage::Log("Loaded 1 Electrs versions\n".to_string()),
            AppMessage::ElectrsVersionsLoaded(strings(&["v0.10.5"])),
        ]
    );
}

#[test]
fn failed_fetch_is_reported_without_error_flag() {
    let messages = versions_report(Project::Electrs, &Err("timed out".to_string()));
    assert_eq!(
        messages,
        vec![
            AppMessage::Log("Could not fetch Electrs versions: timed out\n".to_string()),
            AppMessage::ShowDialog {
                title: "Network Error".to_string(),
                message: "Could not fetch Electrs versions.\nCheck your internet connection."
                    .to_string(),
                is_error: false,
            },
        ]
    );
}

#[test]
fn release_lists_have_their_addresses() {
    assert_eq!(release_api(Project::Bitcoin), "https://api.github.com/repos/bitcoin/bitcoin/releases");
    assert_eq!(release_api(Project::Electrs), "https://api.github.com/repos/romanz/electrs/releases");
}

#[test]
fn abandoned_confirmation_is_a_no() {
    assert!(!resolve_confirmation(None));
    assert!(resolve_confirmation(Some(true)));
    assert!(!resolve_confirmation(Some(false)));
}

#[test]
fn default_cores_leave_one_processor_free() {
    assert_eq!(default_cores(8), 7);
    assert_eq!(default_cores(2), 1);
    assert_eq!(default_cores(1), 1);
    assert_eq!(default_cores(0), 1);
    assert_eq!(default_cores(usize::MAX), usize::MAX - 1);
}

#[test]
fn cores_are_held_to_the_machine() {
    assert_eq!(clamp_cores(4, 8), 4);
    assert_eq!(clamp_cores(0, 8), 1);
    assert_eq!(clamp_cores(9, 8), 8);
    assert_eq!(clamp_cores(3, 0), 1);
}

#[test]
fn detected_cores_are_consistent() {
    let (max, default) = detect_cores();
    assert!(max >= 1);
    assert_eq!(default, default_cores(max));
    assert!(default >= 1 && default <= max);
}
