use bitforge::env_setup::{
    bitcoin_env, brew_prefix, build_environment, build_llvm_candidates, cargo_env, dedup_paths,
    select_brew, select_first_present,
};
use bitforge::environment::Environment;

fn env_of(pairs: &[(&str, &str)]) -> Environment {
    let mut env = Environment::new();
    for (k, v) in pairs {
        env.insert(k.to_string(), v.to_string());
    }
    env
}

fn strings(items: &[&str]) -> Vec<String> {
    items.iter().map(|s| s.to_string()).collect()
}

#[test]
fn environment_insert_get_remove() {
    let mut env = Environment::new();
    assert_eq!(env.len(), 0);
    env.insert("A".to_string(), "1".to_string());
    env.insert("B".to_string(), "2".to_string());
    env.insert("A".to_string(), "3".to_string());
    assert_eq!(env.len(), 2);
    assert_eq!(env.get("A"), Some("3".to_string()));
    assert_eq!(env.get("B"), Some("2".to_string()));
    assert_eq!(env.get("C"), None);
    assert!(env.contains("B"));
    env.remove("A");
    assert_eq!(env.get("A"), None);
    assert_eq!(env.len(), 1);
    env.remove("missing");
    assert_eq!(env.len(), 1);
}

#[test]
fn environment_from_pairs_last_binding_wins() {
    let pairs = vec![
        ("X".to_string(), "old".to_string()),
        ("Y".to_string(), "y".to_string()),
        ("X".to_string(), "new".to_string()),
    ];
    let env = Environment::from_pairs(&pairs);
    assert_eq!(env.len(), 2);
    assert_eq!(env.get("X"), Some("new".to_string()));
    let mut listed = env.to_pairs();
    listed.sort();
    assert_eq!(
        listed,
        vec![("X".to_string(), "new".to_string()), ("Y".to_string(), "y".to_string())]
    );
}

#[test]
fn environment_duplicate_is_independent() {
    let base = env_of(&[("HOME", "/home/u")]);
    let mut copy = base.duplicate();
    copy.insert("HOME".to_string(), "/elsewhere".to_string());
    copy.insert("NEW".to_string(), "1".to_string());
    assert_eq!(base.get("HOME"), Some("/home/u".to_string()));
    assert_eq!(base.get("NEW"), None);
}

#[test]
fn brew_is_selected_silicon_first() {
    assert_eq!(select_brew(true, true), Some("/opt/homebrew/bin/brew".to_string()));
    assert_eq!(select_brew(true, false), Some("/opt/homebrew/bin/brew".to_string()));
    assert_eq!(select_brew(false, true), Some("/usr/local/bin/brew".to_string()));
    assert_eq!(select_brew(false, false), None);
}

#[test]
fn brew_prefix_follows_the_executable() {
    assert_eq!(brew_prefix("/opt/homebrew/bin/brew"), "/opt/homebrew");
    assert_eq!(brew_prefix("/usr/local/bin/brew"), "/usr/local");
    assert_eq!(brew_prefix(""), "/usr/local");
    assert_eq!(brew_prefix("/x/opt/homebrew"), "/opt/homebrew");
}

#[test]
fn llvm_candidates_in_order() {
    assert_eq!(
        build_llvm_candidates(Some("/custom")),
        strings(&["/custom/opt/llvm", "/opt/homebrew/opt/llvm", "/usr/local/opt/llvm"])
    );
    assert_eq!(
        build_llvm_candidates(None),
        strings(&["/opt/homebrew/opt/llvm", "/usr/local/opt/llvm"])
    );
}

#[test]
fn dedup_keeps_first_occurrence_and_drops_empty() {
    let parts = strings(&["/b", "", "/a", "/b", "/c", "/a", ""]);
    assert_eq!(dedup_paths(&parts), strings(&["/b", "/a", "/c"]));
    assert_eq!(dedup_paths(&Vec::new()), Vec::<String>::new());
}

#[test]
fn first_present_candidate_is_chosen() {
    let c = strings(&["/one", "/two", "/three"]);
    assert_eq!(select_first_present(&c, &vec![false, true, true]), Some("/two".to_string()));
    assert_eq!(select_first_present(&c, &vec![false, false, false]), None);
    assert_eq!(select_first_present(&c, &vec![false]), None);
    assert_eq!(select_first_present(&c, &vec![true]), Some("/one".to_string()));
}

#[test]
fn build_environment_orders_and_dedups_the_search_path() {
    let base = env_of(&[("HOME", "/home/u"), ("PATH", "/usr/bin:/opt/tools::/usr/local/bin"), ("USER", "u")]);
    let env = build_environment(&base, Some("/opt/homebrew"), true, Some("/opt/homebrew/opt/llvm"));
    assert_eq!(
        env.get("PATH"),
        Some(
            "/opt/homebrew/bin:/usr/local/bin:/home/u/.cargo/bin:/opt/homebrew/opt/llvm/bin:/usr/bin:/opt/tools:/bin:/usr/sbin:/sbin"
                .to_string()
        )
    );
    assert_eq!(env.get("LIBCLANG_PATH"), Some("/opt/homebrew/opt/llvm/lib".to_string()));
    assert_eq!(env.get("DYLD_LIBRARY_PATH"), Some("/opt/homebrew/opt/llvm/lib".to_string()));
    assert_eq!(env.get("USER"), Some("u".to_string()));
    assert_eq!(base.get("PATH"), Some("/usr/bin:/opt/tools::/usr/local/bin".to_string()));
    assert_eq!(base.get("LIBCLANG_PATH"), None);
}

#[test]
fn build_environment_without_probes_or_base() {
    let base = Environment::new();
    let env = build_environment(&base, None, false, None);
    assert_eq!(
        env.get("PATH"),
        Some("/opt/homebrew/bin:/usr/local/bin:/usr/bin:/bin:/usr/sbin:/sbin".to_string())
    );
    assert_eq!(env.get("LIBCLANG_PATH"), None);
    assert_eq!(env.len(), 1);
    let with_cargo = build_environment(&base, Some("/usr/local"), true, None);
    assert_eq!(
        with_cargo.get("PATH"),
        Some(
            "/usr/local/bin:/opt/homebrew/bin:/Users/user/.cargo/bin:/usr/bin:/bin:/usr/sbin:/sbin"
                .to_string()
        )
    );
}

#[test]
fn bitcoin_env_sets_pkg_config_and_drops_term() {
    let base = env_of(&[
        ("TERM", "xterm"),
        ("PKG_CONFIG_PATH", "/mine:/usr/local/lib/pkgconfig::/mine"),
    ]);
    let env = bitcoin_env(&base);
    assert_eq!(
        env.get("PKG_CONFIG_PATH"),
        Some(
            "/opt/homebrew/lib/pkgconfig:/opt/homebrew/share/pkgconfig:/usr/local/lib/pkgconfig:/usr/local/share/pkgconfig:/mine"
                .to_string()
        )
    );
    assert_eq!(env.get("TERM"), None);
    assert_eq!(env.get("NO_COLOR"), Some("1".to_string()));
    assert_eq!(env.get("CLICOLOR"), Some("0".to_string()));
    assert_eq!(env.get("CLICOLOR_FORCE"), Some("0".to_string()));
    assert_eq!(env.get("GIT_PROGRESS_DELAY"), Some("0".to_string()));
    assert_eq!(base.get("TERM"), Some("xterm".to_string()));
}

#[test]
fn cargo_env_forces_a_dumb_terminal() {
    let env = cargo_env(&env_of(&[("TERM", "xterm"), ("HOME", "/h")]));
    assert_eq!(env.get("TERM"), Some("dumb".to_string()));
    assert_eq!(env.get("NO_COLOR"), Some("1".to_string()));
    assert_eq!(env.get("CARGO_TERM_COLOR"), Some("never".to_string()));
    assert_eq!(env.get("CARGO_TERM_PROGRESS_WHEN"), Some("always".to_string()));
    assert_eq!(env.get("CARGO_TERM_PROGRESS_WIDTH"), Some("60".to_string()));
    assert_eq!(env.get("HOME"), Some("/h".to_string()));
    assert_eq!(env.len(), 9);
}

#[test]
fn brew_is_looked_for_in_the_two_known_places() {
    match bitforge::env_setup::find_brew() {
        None => {}
        Some(path) => assert!(path == "/opt/homebrew/bin/brew" || path == "/usr/local/bin/brew"),
    }
}

#[test]
fn probed_environment_is_one_of_the_possible_ones() {
    let base = env_of(&[("HOME", "/nonexistent-home-for-this-test"), ("PATH", "/usr/bin")]);
    let env = bitforge::env_setup::setup_build_environment(&base, Some("/nonexistent-prefix"));
    let candidates = build_llvm_candidates(Some("/nonexistent-prefix"));
    let mut possible = vec![build_environment(&base, Some("/nonexistent-prefix"), false, None)];
    for c in &candidates {
        possible.push(build_environment(&base, Some("/nonexistent-prefix"), false, Some(c)));
    }
    let mut got = env.to_pairs();
    got.sort();
    assert!(possible.iter().any(|p| {
        let mut pairs = p.to_pairs();
        pairs.sort();
        pairs == got
    }));
    let path = env.get("PATH").unwrap();
    assert!(path.starts_with("/nonexistent-prefix/bin:/opt/homebrew/bin:/usr/local/bin"));
    assert!(path.ends_with("/usr/bin:/bin:/usr/sbin:/sbin"));
    let entries: Vec<&str> = path.split(':').collect();
    let mut unique = entries.clone();
    unique.sort();
    unique.dedup();
    assert_eq!(unique.len(), entries.len());
}
