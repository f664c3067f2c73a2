use bitforge::artifacts::{collect_executables, copy_plan, sort_paths, string_le, CopyJob};
use bitforge::compiler::{
    file_name, join_path, parse_major_minor, release_dir_name, select_build_system, shell_quote,
    validate_version_tag, BuildSystem, Project,
};
use bitforge::errors::PipelineError;
use bitforge::messages::DirEntry;

fn strings(items: &[&str]) -> Vec<String> {
    items.iter().map(|s| s.to_string()).collect()
}

#[test]
fn tags_of_allowed_characters_pass() {
    for tag in ["v27.0", "v1.9.0-rc1", "release_2", "", "ABCxyz019._-"] {
        assert_eq!(validate_version_tag(tag), Ok(()));
    }
}

#[test]
fn tags_with_other_characters_are_rejected() {
    for tag in ["v1;rm -rf /", "v1 0", "$(id)", "v1'", "v1\n", "é", "v1/2", "a`b", "٣"] {
        assert_eq!(
            validate_version_tag(tag),
            Err(PipelineError::InvalidTag { tag: tag.to_string() })
        );
    }
}

#[test]
fn shell_quote_wraps_and_escapes() {
    assert_eq!(shell_quote("v27.0"), "'v27.0'");
    assert_eq!(shell_quote(""), "''");
    assert_eq!(shell_quote("it's"), "'it'\\''s'");
    assert_eq!(shell_quote("'"), "''\\'''");
    assert_eq!(shell_quote("a b;c"), "'a b;c'");
}

#[test]
fn shell_quote_matches_replace() {
    for text in ["", "'", "''", "a'b'c", "plain", "$HOME `x`"] {
        assert_eq!(shell_quote(text), format!("'{}'", text.replace('\'', r"'\''")));
    }
}

#[test]
fn major_minor_is_read_from_the_front() {
    assert_eq!(parse_major_minor("v29.1"), (29, 1));
    assert_eq!(parse_major_minor("24.0"), (24, 0));
    assert_eq!(parse_major_minor("v0.21.2"), (0, 21));
    assert_eq!(parse_major_minor("v27.0rc1"), (27, 0));
    assert_eq!(parse_major_minor("vv3.4"), (3, 4));
    assert_eq!(parse_major_minor("25"), (0, 0));
    assert_eq!(parse_major_minor("v25."), (0, 0));
    assert_eq!(parse_major_minor(".5"), (0, 0));
    assert_eq!(parse_major_minor("x1.2"), (0, 0));
    assert_eq!(parse_major_minor(""), (0, 0));
    assert_eq!(parse_major_minor("99999999999999999999999.7"), (u64::MAX, 7));
    assert_eq!(parse_major_minor("007.010"), (7, 10));
}

#[test]
fn build_system_changes_at_major_version_25() {
    assert_eq!(select_build_system(Project::Bitcoin, "24.0"), BuildSystem::Legacy);
    assert_eq!(select_build_system(Project::Bitcoin, "25.0"), BuildSystem::Modern);
    assert_eq!(select_build_system(Project::Bitcoin, "v29.1"), BuildSystem::Modern);
    assert_eq!(select_build_system(Project::Bitcoin, "v24.99"), BuildSystem::Legacy);
    assert_eq!(select_build_system(Project::Bitcoin, "garbage"), BuildSystem::Legacy);
    assert_eq!(select_build_system(Project::Bitcoin, ""), BuildSystem::Legacy);
    assert_eq!(select_build_system(Project::Electrs, "v0.10.5"), BuildSystem::Cargo);
    assert_eq!(select_build_system(Project::Electrs, "v99.0"), BuildSystem::Cargo);
}

#[test]
fn paths_are_joined_with_one_slash() {
    assert_eq!(join_path("/build", "bitcoin-27.0"), "/build/bitcoin-27.0");
    assert_eq!(join_path("/build/", "x"), "/build/x");
    assert_eq!(join_path("", "x"), "x");
    assert_eq!(release_dir_name(Project::Bitcoin, "v27.0"), "bitcoin-27.0");
    assert_eq!(release_dir_name(Project::Electrs, "0.10.5"), "electrs-0.10.5");
}

#[test]
fn file_name_is_the_last_component() {
    assert_eq!(file_name("/a/b/bitcoind"), Some("bitcoind".to_string()));
    assert_eq!(file_name("bitcoind"), Some("bitcoind".to_string()));
    assert_eq!(file_name("/a/b/"), None);
    assert_eq!(file_name(""), None);
    assert_eq!(file_name("/"), None);
}

#[test]
fn text_order_is_by_code_point() {
    assert!(string_le("", ""));
    assert!(string_le("", "a"));
    assert!(!string_le("a", ""));
    assert!(string_le("a", "b"));
    assert!(string_le("ab", "abc"));
    assert!(!string_le("b", "abc"));
    assert!(string_le("Z", "a"));
    assert!(string_le("same", "same"));
    for (a, b) in [("bitcoin-cli", "bitcoind"), ("é", "z"), ("x✓", "xy")] {
        assert_eq!(string_le(a, b), a <= b);
    }
}

#[test]
fn sort_orders_and_keeps_duplicates() {
    let paths = strings(&["/b/bitcoind", "/b/bitcoin-cli", "/b/bitcoin-tx", "/b/bitcoin-cli"]);
    let mut expected = paths.clone();
    expected.sort();
    assert_eq!(sort_paths(&paths), expected);
    assert_eq!(sort_paths(&Vec::new()), Vec::<String>::new());
}

#[test]
fn executables_are_discovered_in_order() {
    let entries = vec![
        DirEntry { path: "/b/bitcoind".to_string(), is_file: true, mode: 0o100755 },
        DirEntry { path: "/b/README".to_string(), is_file: true, mode: 0o100644 },
        DirEntry { path: "/b/sub".to_string(), is_file: false, mode: 0o040755 },
        DirEntry { path: "/b/bitcoin-cli".to_string(), is_file: true, mode: 0o100700 },
        DirEntry { path: "/b/other".to_string(), is_file: true, mode: 0o100001 },
    ];
    assert_eq!(
        collect_executables(&entries),
        strings(&["/b/bitcoin-cli", "/b/bitcoind", "/b/other"])
    );
    assert_eq!(collect_executables(&Vec::new()), Vec::<String>::new());
}

#[test]
fn copy_plan_names_each_destination() {
    let jobs = copy_plan(&strings(&["/s/bin/bitcoind", "/s/bin/", "bitcoin-cli"]), "/out");
    assert_eq!(
        jobs,
        vec![
            CopyJob { from: "/s/bin/bitcoind".to_string(), to: "/out/bitcoind".to_string() },
            CopyJob { from: "bitcoin-cli".to_string(), to: "/out/bitcoin-cli".to_string() },
        ]
    );
}
