//! Discovery of the package manager and construction of the environment that
//! every build step runs in.
//!
//! The search path is assembled from a fixed order of candidate directories,
//! stripped of empty and repeated entries, and joined with `:`.

use crate::environment::Environment;
use crate::text::{
    appended, contains, contains_text, join, join_strings, optional_text, optional_view, split,
    split_on, views,
};
use vstd::prelude::*;
use vstd::string::*;

verus! {

/// Where the package manager lives on Apple Silicon.
pub const SILICON_BREW: &'static str = "/opt/homebrew/bin/brew";

/// Where the package manager lives on Intel machines.
pub const INTEL_BREW: &'static str = "/usr/local/bin/brew";

/// The package manager's prefix on Apple Silicon.
pub const SILICON_PREFIX: &'static str = "/opt/homebrew";

/// The package manager's prefix on Intel machines.
pub const INTEL_PREFIX: &'static str = "/usr/local";

/// The home directory assumed where the environment names none.
pub const FALLBACK_HOME: &'static str = "/Users/user";

/// `x` stands in `s` at `a` and nowhere before.
pub open spec fn first_at(s: Seq<Seq<char>>, x: Seq<char>, a: int) -> bool {
    &&& 0 <= a < s.len()
    &&& s[a] == x
    &&& forall|k: int| 0 <= k < a ==> s[k] != x
}

/// The non-empty entries of `parts`, each kept where it first occurs.
pub open spec fn dedup_nonempty(parts: Seq<Seq<char>>) -> Seq<Seq<char>>
    decreases parts.len(),
{
    if parts.len() == 0 {
        Seq::empty()
    } else {
        let kept = dedup_nonempty(parts.drop_last());
        let p = parts.last();
        if p.len() == 0 || kept.contains(p) {
            kept
        } else {
            kept.push(p)
        }
    }
}

/// One entry for a value that is there, none for one that is not.
pub open spec fn optional_entry(entry: Option<Seq<char>>) -> Seq<Seq<char>> {
    match entry {
        Some(e) => seq![e],
        None => Seq::empty(),
    }
}

/// The entries of an inherited search path, none where there is no such path.
pub open spec fn inherited_entries(inherited: Option<Seq<char>>) -> Seq<Seq<char>> {
    match inherited {
        Some(p) => split(p, ':'),
        None => Seq::empty(),
    }
}

/// `dir` under the prefix, where there is a prefix.
pub open spec fn under(prefix: Option<Seq<char>>, dir: Seq<char>) -> Option<Seq<char>> {
    match prefix {
        Some(p) => Some(p + dir),
        None => None,
    }
}

/// The toolchain prefixes that are probed for a native compiler, in order.
pub open spec fn llvm_candidates(brew_pfx: Option<Seq<char>>) -> Seq<Seq<char>> {
    optional_entry(under(brew_pfx, "/opt/llvm"@)) + seq![
        "/opt/homebrew/opt/llvm"@,
        "/usr/local/opt/llvm"@,
    ]
}

/// The search path's candidate directories, in order of precedence: the
/// package manager's own `bin`, both standard package-manager `bin`
/// directories, the user's cargo `bin`, the native compiler's `bin`, the
/// inherited search path, and the system directories.
pub open spec fn path_candidates(
    brew_pfx: Option<Seq<char>>,
    cargo_bin: Option<Seq<char>>,
    llvm_prefix: Option<Seq<char>>,
    inherited: Option<Seq<char>>,
) -> Seq<Seq<char>> {
    optional_entry(under(brew_pfx, "/bin"@)) + seq!["/opt/homebrew/bin"@, "/usr/local/bin"@]
        + optional_entry(cargo_bin) + optional_entry(under(llvm_prefix, "/bin"@))
        + inherited_entries(inherited) + seq!["/usr/bin"@, "/bin"@, "/usr/sbin"@, "/sbin"@]
}

/// The home directory that an environment names, or the fallback.
pub open spec fn home_of(base: Map<Seq<char>, Seq<char>>) -> Seq<char> {
    if base.contains_key("HOME"@) {
        base["HOME"@]
    } else {
        FALLBACK_HOME@
    }
}

/// The value of a variable, where it is bound.
pub open spec fn lookup(base: Map<Seq<char>, Seq<char>>, name: Seq<char>) -> Option<Seq<char>> {
    if base.contains_key(name) {
        Some(base[name])
    } else {
        None
    }
}

/// The environment with the native compiler's library directory, where a
/// prefix was found.
pub open spec fn with_llvm_libraries(
    env: Map<Seq<char>, Seq<char>>,
    llvm_prefix: Option<Seq<char>>,
) -> Map<Seq<char>, Seq<char>> {
    match llvm_prefix {
        Some(p) => env.insert("LIBCLANG_PATH"@, p + "/lib"@).insert(
            "DYLD_LIBRARY_PATH"@,
            p + "/lib"@,
        ),
        None => env,
    }
}

/// The build environment over `base`.
pub open spec fn build_environment_of(
    base: Map<Seq<char>, Seq<char>>,
    brew_pfx: Option<Seq<char>>,
    cargo_bin_present: bool,
    llvm_prefix: Option<Seq<char>>,
) -> Map<Seq<char>, Seq<char>> {
    let cargo_bin = if cargo_bin_present {
        Some(home_of(base) + "/.cargo/bin"@)
    } else {
        None
    };
    let candidates = path_candidates(brew_pfx, cargo_bin, llvm_prefix, lookup(base, "PATH"@));
    with_llvm_libraries(
        base.insert("PATH"@, join(dedup_nonempty(candidates), ":"@)),
        llvm_prefix,
    )
}

/// The first candidate whose flag is set.
pub open spec fn first_present(candidates: Seq<Seq<char>>, present: Seq<bool>) -> Option<
    Seq<char>,
>
    decreases candidates.len(),
{
    if candidates.len() == 0 || present.len() == 0 {
        None
    } else if present[0] {
        Some(candidates[0])
    } else {
        first_present(candidates.drop_first(), present.drop_first())
    }
}

/// The environment with colour switched off for every tool that honours
/// the usual variables, and with git reporting progress at once.
pub open spec fn without_colour(env: Map<Seq<char>, Seq<char>>) -> Map<Seq<char>, Seq<char>> {
    env.insert("NO_COLOR"@, "1"@).insert("CLICOLOR"@, "0"@).insert("CLICOLOR_FORCE"@, "0"@).insert(
        "GIT_PROGRESS_DELAY"@,
        "0"@,
    )
}

/// The directories in which package descriptions are looked for: the four
/// known installation directories, then what the variable held before.
pub open spec fn pkg_config_candidates(existing: Option<Seq<char>>) -> Seq<Seq<char>> {
    seq![
        "/opt/homebrew/lib/pkgconfig"@,
        "/opt/homebrew/share/pkgconfig"@,
        "/usr/local/lib/pkgconfig"@,
        "/usr/local/share/pkgconfig"@,
    ] + inherited_entries(existing)
}

/// The environment of a CMake build over `base`: package descriptions are
/// findable, colour is off, and no terminal type is forced.
pub open spec fn bitcoin_env_of(base: Map<Seq<char>, Seq<char>>) -> Map<Seq<char>, Seq<char>> {
    without_colour(
        base.insert(
            "PKG_CONFIG_PATH"@,
            join(
                dedup_nonempty(pkg_config_candidates(lookup(base, "PKG_CONFIG_PATH"@))),
                ":"@,
            ),
        ).remove("TERM"@),
    )
}

/// The environment of a cargo build over `base`: colour is off, the terminal
/// is declared dumb, and cargo still draws its progress bar.
pub open spec fn cargo_env_of(base: Map<Seq<char>, Seq<char>>) -> Map<Seq<char>, Seq<char>> {
    base.insert("NO_COLOR"@, "1"@).insert("TERM"@, "dumb"@).insert("CLICOLOR"@, "0"@).insert(
        "CLICOLOR_FORCE"@,
        "0"@,
    ).insert("GIT_PROGRESS_DELAY"@, "0"@).insert("CARGO_TERM_COLOR"@, "never"@).insert(
        "CARGO_TERM_PROGRESS_WHEN"@,
        "always"@,
    ).insert("CARGO_TERM_PROGRESS_WIDTH"@, "60"@)
}

/// Whether `path` names a regular file.
///
/// Trusted: wraps `std::path::Path::is_file`. The answer depends on what is
/// on disk, so nothing is claimed of it.
#[verifier::external_body]
fn path_is_file(path: &str) -> bool {
    std::path::Path::new(path).is_file()
}

/// Whether `path` names a directory.
///
/// Trusted: wraps `std::path::Path::is_dir`. The answer depends on what is
/// on disk, so nothing is claimed of it.
#[verifier::external_body]
fn path_is_dir(path: &str) -> bool {
    std::path::Path::new(path).is_dir()
}

/// The package manager's executable, given which of the two known places
/// hold one. Apple Silicon's place wins.
pub fn select_brew(silicon_present: bool, intel_present: bool) -> (brew: Option<String>)
    ensures
        optional_text(brew) == if silicon_present {
            Some(SILICON_BREW@)
        } else if intel_present {
            Some(INTEL_BREW@)
        } else {
            None
        },
{
    if silicon_present {
        Some(String::from_str(SILICON_BREW))
    } else if intel_present {
        Some(String::from_str(INTEL_BREW))
    } else {
        None
    }
}

/// The package manager's executable, looked for on disk. Whatever the disk
/// holds, the answer is one of the two known places or none.
pub fn find_brew() -> (brew: Option<String>)
    ensures
        match brew {
            Some(path) => path@ == SILICON_BREW@ || path@ == INTEL_BREW@,
            None => true,
        },
{
    let silicon = path_is_file(SILICON_BREW);
    let intel = if silicon {
        false
    } else {
        path_is_file(INTEL_BREW)
    };
    select_brew(silicon, intel)
}

/// The package manager's prefix, read off the path of its executable.
pub fn brew_prefix(brew: &str) -> (prefix: String)
    ensures
        prefix@ == if contains_text(brew@, SILICON_PREFIX@) {
            SILICON_PREFIX@
        } else {
            INTEL_PREFIX@
        },
{
    if contains(brew, SILICON_PREFIX) {
        String::from_str(SILICON_PREFIX)
    } else {
        String::from_str(INTEL_PREFIX)
    }
}

/// The toolchain prefixes to probe for a native compiler, in order.
pub fn build_llvm_candidates(brew_pfx: Option<&str>) -> (candidates: Vec<String>)
    ensures
        views(candidates@) == llvm_candidates(optional_view(brew_pfx)),
{
    let mut v: Vec<String> = Vec::new();
    if let Some(pfx) = brew_pfx {
        v.push(appended(pfx, "/opt/llvm"));
    }
    v.push(String::from_str("/opt/homebrew/opt/llvm"));
    v.push(String::from_str("/usr/local/opt/llvm"));
    assert(views(v@) =~= llvm_candidates(optional_view(brew_pfx)));
    v
}

/// Whether `s` is one of `list`.
pub fn list_contains(list: &Vec<String>, s: &String) -> (b: bool)
    ensures
        b == views(list@).contains(s@),
{
    let mut i: usize = 0;
    while i < list.len()
        invariant
            i <= list.len(),
            forall|k: int| 0 <= k < i ==> views(list@)[k] != s@,
        decreases list.len() - i,
    {
        if list[i] == *s {
            assert(views(list@)[i as int] == s@);
            return true;
        }
        i += 1;
    }
    false
}

/// Drops the empty entries and every entry that occurred before.
pub fn dedup_paths(parts: &Vec<String>) -> (kept: Vec<String>)
    ensures
        views(kept@) == dedup_nonempty(views(parts@)),
{
    let mut kept: Vec<String> = Vec::new();
    let mut i: usize = 0;
    assert(views(kept@) =~= dedup_nonempty(views(parts@).take(0)));
    while i < parts.len()
        invariant
            i <= parts.len(),
            views(kept@) == dedup_nonempty(views(parts@).take(i as int)),
        decreases parts.len() - i,
    {
        proof {
            let now = views(parts@).take(i + 1);
            assert(now.drop_last() =~= views(parts@).take(i as int));
            assert(now.last() == parts@[i as int]@);
        }
        let ghost before = views(kept@);
        if !parts[i].as_str().is_empty() && !list_contains(&kept, &parts[i]) {
            kept.push(parts[i].clone());
            assert(views(kept@) =~= before.push(parts@[i as int]@));
        }
        i += 1;
    }
    assert(views(parts@).take(parts.len() as int) =~= views(parts@));
    kept
}

/// The first candidate whose flag is set. Flags beyond the candidates, and
/// candidates beyond the flags, count for nothing.
pub fn select_first_present(candidates: &Vec<String>, present: &Vec<bool>) -> (found: Option<
    String,
>)
    ensures
        optional_text(found) == first_present(views(candidates@), present@),
{
    let mut i: usize = 0;
    assert(views(candidates@).skip(0) =~= views(candidates@));
    assert(present@.skip(0) =~= present@);
    while i < candidates.len() && i < present.len()
        invariant
            i <= candidates.len(),
            i <= present.len(),
            first_present(views(candidates@), present@) == first_present(
                views(candidates@).skip(i as int),
                present@.skip(i as int),
            ),
        decreases candidates.len() - i,
    {
        if present[i] {
            return Some(candidates[i].clone());
        }
        assert(views(candidates@).skip(i as int).drop_first() =~= views(candidates@).skip(i + 1));
        assert(present@.skip(i as int).drop_first() =~= present@.skip(i + 1));
        i += 1;
    }
    None
}

/// Appends copies of `more` to `list`.
fn extend_with(list: &mut Vec<String>, more: &Vec<String>)
    ensures
        views(final(list)@) == views(old(list)@) + views(more@),
{
    let mut i: usize = 0;
    assert(views(list@) =~= views(old(list)@) + views(more@).take(0));
    while i < more.len()
        invariant
            i <= more.len(),
            views(list@) == views(old(list)@) + views(more@).take(i as int),
        decreases more.len() - i,
    {
        let ghost before = views(list@);
        list.push(more[i].clone());
        assert(views(list@) =~= before.push(more@[i as int]@));
        assert(views(list@) =~= views(old(list)@) + views(more@).take(i + 1));
        i += 1;
    }
    assert(views(more@).take(more.len() as int) =~= views(more@));
}

/// The build environment over `base`, given what the probes of the disk
/// found: whether the user's cargo `bin` directory is there, and the prefix
/// of the native compiler, if any. `base` itself is left as it was.
pub fn build_environment(
    base: &Environment,
    brew_pfx: Option<&str>,
    cargo_bin_present: bool,
    llvm_prefix: Option<&str>,
) -> (env: Environment)
    ensures
        env@ == build_environment_of(
            base@,
            optional_view(brew_pfx),
            cargo_bin_present,
            optional_view(llvm_prefix),
        ),
{
    let mut env = base.duplicate();
    let home = match env.get("HOME") {
        Some(h) => h,
        None => String::from_str(FALLBACK_HOME),
    };
    let ghost cargo_bin = if cargo_bin_present {
        Some(home_of(base@) + "/.cargo/bin"@)
    } else {
        None
    };
    let ghost wanted = path_candidates(
        optional_view(brew_pfx),
        cargo_bin,
        optional_view(llvm_prefix),
        lookup(base@, "PATH"@),
    );
    let mut parts: Vec<String> = Vec::new();
    if let Some(pfx) = brew_pfx {
        parts.push(appended(pfx, "/bin"));
    }
    parts.push(String::from_str("/opt/homebrew/bin"));
    parts.push(String::from_str("/usr/local/bin"));
    if cargo_bin_present {
        parts.push(appended(home.as_str(), "/.cargo/bin"));
    }
    if let Some(llvm) = llvm_prefix {
        parts.push(appended(llvm, "/bin"));
    }
    assert(views(parts@) =~= optional_entry(under(optional_view(brew_pfx), "/bin"@)) + seq![
        "/opt/homebrew/bin"@,
        "/usr/local/bin"@,
    ] + optional_entry(cargo_bin) + optional_entry(under(optional_view(llvm_prefix), "/bin"@)));
    if let Some(existing) = env.get("PATH") {
        let inherited = split_on(existing.as_str(), ':');
        extend_with(&mut parts, &inherited);
    }
    let ghost middle = views(parts@);
    parts.push(String::from_str("/usr/bin"));
    parts.push(String::from_str("/bin"));
    parts.push(String::from_str("/usr/sbin"));
    parts.push(String::from_str("/sbin"));
    assert(views(parts@) =~= middle + seq!["/usr/bin"@, "/bin"@, "/usr/sbin"@, "/sbin"@]);
    assert(views(parts@) =~= wanted);
    let kept = dedup_paths(&parts);
    env.insert(String::from_str("PATH"), join_strings(&kept, ":"));
    if let Some(llvm) = llvm_prefix {
        env.insert(String::from_str("LIBCLANG_PATH"), appended(llvm, "/lib"));
        env.insert(String::from_str("DYLD_LIBRARY_PATH"), appended(llvm, "/lib"));
    }
    env
}

/// The build environment over `base`, probing the disk for the user's cargo
/// `bin` directory and for a native compiler under the known prefixes.
///
/// Whatever the disk holds, the result is a build environment for some
/// outcome of those probes; `build_environment` says which, outcome by outcome.
pub fn setup_build_environment(base: &Environment, brew_pfx: Option<&str>) -> (env: Environment)
    ensures
        exists|cargo_bin_present: bool, llvm_prefix: Option<Seq<char>>|
            {
                &&& match llvm_prefix {
                    Some(p) => llvm_candidates(optional_view(brew_pfx)).contains(p),
                    None => true,
                }
                &&& env@ == #[trigger] build_environment_of(
                    base@,
                    optional_view(brew_pfx),
                    cargo_bin_present,
                    llvm_prefix,
                )
            },
{
    let home = match base.get("HOME") {
        Some(h) => h,
        None => String::from_str(FALLBACK_HOME),
    };
    let cargo_bin = appended(home.as_str(), "/.cargo/bin");
    let cargo_bin_present = path_is_dir(cargo_bin.as_str());
    let candidates = build_llvm_candidates(brew_pfx);
    let mut present: Vec<bool> = Vec::new();
    let mut i: usize = 0;
    while i < candidates.len()
        invariant
            i <= candidates.len(),
            present@.len() == i,
        decreases candidates.len() - i,
    {
        let bin = appended(candidates[i].as_str(), "/bin");
        present.push(path_is_dir(bin.as_str()));
        i += 1;
    }
    let found = select_first_present(&candidates, &present);
    proof {
        lemma_first_present_is_candidate(views(candidates@), present@);
    }
    match found {
        Some(llvm) => build_environment(base, brew_pfx, cargo_bin_present, Some(llvm.as_str())),
        None => build_environment(base, brew_pfx, cargo_bin_present, None),
    }
}

/// Binds `name` to `value` in `env`.
fn bind(env: &mut Environment, name: &str, value: &str)
    ensures
        final(env)@ == old(env)@.insert(name@, value@),
{
    env.insert(String::from_str(name), String::from_str(value));
}

/// The environment for CMake builds over `base`, which is left as it was.
///
/// The package-description search path is set so that the configure step
/// finds its dependencies by lookup. `TERM` is removed rather than set: with
/// a dumb terminal the configure step holds its output back.
pub fn bitcoin_env(base: &Environment) -> (env: Environment)
    ensures
        env@ == bitcoin_env_of(base@),
{
    let mut env = base.duplicate();
    let mut dirs: Vec<String> = Vec::new();
    dirs.push(String::from_str("/opt/homebrew/lib/pkgconfig"));
    dirs.push(String::from_str("/opt/homebrew/share/pkgconfig"));
    dirs.push(String::from_str("/usr/local/lib/pkgconfig"));
    dirs.push(String::from_str("/usr/local/share/pkgconfig"));
    assert(views(dirs@) =~= seq![
        "/opt/homebrew/lib/pkgconfig"@,
        "/opt/homebrew/share/pkgconfig"@,
        "/usr/local/lib/pkgconfig"@,
        "/usr/local/share/pkgconfig"@,
    ]);
    if let Some(existing) = env.get("PKG_CONFIG_PATH") {
        let inherited = split_on(existing.as_str(), ':');
        extend_with(&mut dirs, &inherited);
    }
    assert(views(dirs@) =~= pkg_config_candidates(lookup(base@, "PKG_CONFIG_PATH"@)));
    let kept = dedup_paths(&dirs);
    env.insert(String::from_str("PKG_CONFIG_PATH"), join_strings(&kept, ":"));
    env.remove("TERM");
    bind(&mut env, "NO_COLOR", "1");
    bind(&mut env, "CLICOLOR", "0");
    bind(&mut env, "CLICOLOR_FORCE", "0");
    bind(&mut env, "GIT_PROGRESS_DELAY", "0");
    env
}

/// The environment for cargo builds over `base`, which is left as it was.
pub fn cargo_env(base: &Environment) -> (env: Environment)
    ensures
        env@ == cargo_env_of(base@),
{
    let mut env = base.duplicate();
    bind(&mut env, "NO_COLOR", "1");
    bind(&mut env, "TERM", "dumb");
    bind(&mut env, "CLICOLOR", "0");
    bind(&mut env, "CLICOLOR_FORCE", "0");
    bind(&mut env, "GIT_PROGRESS_DELAY", "0");
    bind(&mut env, "CARGO_TERM_COLOR", "never");
    bind(&mut env, "CARGO_TERM_PROGRESS_WHEN", "always");
    bind(&mut env, "CARGO_TERM_PROGRESS_WIDTH", "60");
    env
}

/// What `first_present` finds is one of the candidates.
pub proof fn lemma_first_present_is_candidate(candidates: Seq<Seq<char>>, present: Seq<bool>)
    ensures
        match first_present(candidates, present) {
            Some(c) => candidates.contains(c),
            None => true,
        },
    decreases candidates.len(),
{
    if candidates.len() == 0 || present.len() == 0 {
    } else if present[0] {
        assert(candidates[0] == candidates[0]);
    } else {
        lemma_first_present_is_candidate(candidates.drop_first(), present.drop_first());
        match first_present(candidates, present) {
            Some(c) => {
                let i = choose|i: int|
                    0 <= i < candidates.drop_first().len() && candidates.drop_first()[i] == c;
                assert(candidates[i + 1] == c);
            },
            None => {},
        }
    }
}

/// What is kept holds nothing twice and nothing empty, and holds exactly
/// the non-empty entries of the input.
pub proof fn lemma_dedup_members(parts: Seq<Seq<char>>)
    ensures
        dedup_nonempty(parts).no_duplicates(),
        forall|x: Seq<char>|
            dedup_nonempty(parts).contains(x) <==> (parts.contains(x) && x.len() > 0),
    decreases parts.len(),
{
    let kept_all = dedup_nonempty(parts);
    if parts.len() == 0 {
    } else {
        let init = parts.drop_last();
        let kept = dedup_nonempty(init);
        let p = parts.last();
        lemma_dedup_members(init);
        assert forall|x: Seq<char>| parts.contains(x) <==> (init.contains(x) || x == p) by {
            if parts.contains(x) {
                let i = choose|i: int| 0 <= i < parts.len() && parts[i] == x;
                if i < init.len() {
                    assert(init[i] == x);
                }
            }
            if init.contains(x) {
                let i = choose|i: int| 0 <= i < init.len() && init[i] == x;
                assert(parts[i] == x);
            }
            if x == p {
                assert(parts[parts.len() - 1] == x);
            }
        }
        if p.len() == 0 || kept.contains(p) {
        } else {
            assert forall|x: Seq<char>| kept_all.contains(x) <==> (kept.contains(x) || x == p) by {
                if kept_all.contains(x) {
                    let i = choose|i: int| 0 <= i < kept_all.len() && kept_all[i] == x;
                    if i < kept.len() {
                        assert(kept[i] == x);
                    }
                }
                if kept.contains(x) {
                    let i = choose|i: int| 0 <= i < kept.len() && kept[i] == x;
                    assert(kept_all[i] == x);
                }
                if x == p {
                    assert(kept_all[kept.len() as int] == x);
                }
            }
            assert forall|i: int, j: int|
                0 <= i < kept_all.len() && 0 <= j < kept_all.len() && i != j implies kept_all[i]
                != kept_all[j] by {
                if i < kept.len() && j < kept.len() {
                    assert(kept[i] != kept[j]);
                } else if i < kept.len() {
                    assert(kept[i] == kept_all[i]);
                    assert(kept.contains(kept[i]));
                } else {
                    assert(kept[j] == kept_all[j]);
                    assert(kept.contains(kept[j]));
                }
            }
        }
    }
}

/// What is kept stands in the order in which the input first shows it: of
/// two kept entries, the earlier one occurs first in the input before the
/// later one does.
pub proof fn lemma_dedup_keeps_first_seen_order(
    parts: Seq<Seq<char>>,
    i: int,
    j: int,
    a: int,
    b: int,
)
    requires
        0 <= i < j < dedup_nonempty(parts).len(),
        first_at(parts, dedup_nonempty(parts)[i], a),
        first_at(parts, dedup_nonempty(parts)[j], b),
    ensures
        a < b,
    decreases parts.len(),
{
    let kept_all = dedup_nonempty(parts);
    let init = parts.drop_last();
    let kept = dedup_nonempty(init);
    let p = parts.last();
    lemma_dedup_members(init);
    assert(kept_all[i] == kept[i]);
    assert(kept.contains(kept[i]));
    assert(init.contains(kept[i]));
    let ai = choose|k: int| 0 <= k < init.len() && init[k] == kept[i];
    assert(parts[ai] == kept[i]);
    assert(a < init.len());
    assert(first_at(init, kept[i], a)) by {
        assert(init[a] == parts[a]);
        assert forall|k: int| 0 <= k < a implies init[k] != kept[i] by {
            assert(init[k] == parts[k]);
        }
    }
    if j < kept.len() {
        assert(kept_all[j] == kept[j]);
        assert(kept.contains(kept[j]));
        assert(init.contains(kept[j]));
        let bj = choose|k: int| 0 <= k < init.len() && init[k] == kept[j];
        assert(parts[bj] == kept[j]);
        assert(b < init.len());
        assert(first_at(init, kept[j], b)) by {
            assert(init[b] == parts[b]);
            assert forall|k: int| 0 <= k < b implies init[k] != kept[j] by {
                assert(init[k] == parts[k]);
            }
        }
        lemma_dedup_keeps_first_seen_order(init, i, j, a, b);
    } else {
        assert(kept_all[j] == p);
        assert(!init.contains(p));
        if b < init.len() {
            assert(init[b] == parts[b]);
            assert(init.contains(p));
        }
    }
}

/// The search path of a build environment names no directory twice and
/// no empty one, names every non-empty candidate, and names the
/// candidates in the order in which they first occur.
pub proof fn lemma_search_path_entries(
    brew_pfx: Option<Seq<char>>,
    cargo_bin: Option<Seq<char>>,
    llvm_prefix: Option<Seq<char>>,
    inherited: Option<Seq<char>>,
)
    ensures
        ({
            let candidates = path_candidates(brew_pfx, cargo_bin, llvm_prefix, inherited);
            let entries = dedup_nonempty(candidates);
            &&& entries.no_duplicates()
            &&& forall|x: Seq<char>|
                entries.contains(x) <==> (candidates.contains(x) && x.len() > 0)
            &&& forall|i: int, j: int, a: int, b: int|
                0 <= i < j < entries.len() && first_at(candidates, entries[i], a) && first_at(
                    candidates,
                    entries[j],
                    b,
                ) ==> a < b
        }),
{
    let candidates = path_candidates(brew_pfx, cargo_bin, llvm_prefix, inherited);
    let entries = dedup_nonempty(candidates);
    lemma_dedup_members(candidates);
    assert forall|i: int, j: int, a: int, b: int|
        0 <= i < j < entries.len() && first_at(candidates, entries[i], a) && first_at(
            candidates,
            entries[j],
            b,
        ) implies a < b by {
        lemma_dedup_keeps_first_seen_order(candidates, i, j, a, b);
    }
}

} // verus!
