//! The rules of a build that need no state: which tags may reach a shell,
//! how an argument is quoted, which build system a version calls for, and
//! where sources and artifacts live.

use crate::errors::{ErrorView, PipelineError};
use crate::process::unit_result_view;
use crate::text::{
    decimal, digit, optional_text, push_char, strip_leading, strip_leading_char, to_chars,
};
use vstd::prelude::*;
use vstd::string::*;

verus! {

/// The project to build.
#[derive(Clone, Copy, Debug, PartialEq, Eq, Structural)]
pub enum Project {
    Bitcoin,
    Electrs,
}

/// The way a project is built.
#[derive(Clone, Copy, Debug, PartialEq, Eq, Structural)]
pub enum BuildSystem {
    /// Bootstrap script, configure script, make.
    Legacy,
    /// CMake, for configure and build alike.
    Modern,
    /// The dependency manager of the language builds everything.
    Cargo,
}

/// The first major version that is built with the modern build system.
pub const MODERN_SINCE_MAJOR: u64 = 25;

/// A character that may stand in a version tag: a letter or digit of
/// ASCII, a dot, a hyphen or an underscore.
pub open spec fn is_tag_char(c: char) -> bool {
    ('a' <= c && c <= 'z') || ('A' <= c && c <= 'Z') || ('0' <= c && c <= '9') || c == '.' || c
        == '-' || c == '_'
}

/// A tag all of whose characters may reach a shell.
pub open spec fn valid_tag(tag: Seq<char>) -> bool {
    forall|i: int| 0 <= i < tag.len() ==> is_tag_char(#[trigger] tag[i])
}

/// What one character becomes between single quotes: a single quote closes
/// the quotation, stands escaped, and opens it again; all else stands as it is.
pub open spec fn quoted_char(c: char) -> Seq<char> {
    if c == '\'' {
        seq!['\'', '\\', '\'', '\'']
    } else {
        seq![c]
    }
}

/// The text with every character as it stands between single quotes.
pub open spec fn quote_body(s: Seq<char>) -> Seq<char>
    decreases s.len(),
{
    if s.len() == 0 {
        Seq::empty()
    } else {
        quote_body(s.drop_last()) + quoted_char(s.last())
    }
}

/// The text as one word of a POSIX shell.
pub open spec fn shell_quoted(s: Seq<char>) -> Seq<char> {
    seq!['\''] + quote_body(s) + seq!['\'']
}

/// Whether the character is a decimal digit.
pub open spec fn is_digit(c: char) -> bool {
    '0' <= c && c <= '9'
}

/// How many digits the text starts with.
pub open spec fn digit_run(s: Seq<char>) -> nat
    decreases s.len(),
{
    if s.len() > 0 && is_digit(s[0]) {
        1 + digit_run(s.drop_first())
    } else {
        0
    }
}

/// The number that a text of digits denotes.
pub open spec fn digits_value(s: Seq<char>) -> nat
    decreases s.len(),
{
    if s.len() == 0 {
        0
    } else {
        digits_value(s.drop_last()) * 10 + (s.last() as nat - '0' as nat) as nat
    }
}

/// The leading `major.minor` pair of a tag, read after any leading `v`;
/// nothing where the tag does not start with digits, a dot and digits.
pub open spec fn leading_pair(tag: Seq<char>) -> Option<(nat, nat)> {
    let s = strip_leading(tag, 'v');
    let a = digit_run(s);
    if a == 0 || a >= s.len() || s[a as int] != '.' {
        None
    } else {
        let rest = s.skip(a as int + 1);
        let b = digit_run(rest);
        if b == 0 {
            None
        } else {
            Some((digits_value(s.take(a as int)), digits_value(rest.take(b as int))))
        }
    }
}

/// The version that a tag names: its leading pair, or `(0, 0)`.
pub open spec fn major_minor(tag: Seq<char>) -> (nat, nat) {
    match leading_pair(tag) {
        Some(pair) => pair,
        None => (0, 0),
    }
}

/// The build system for a version of a project. The first project changed
/// its build system with major version 25; the second has only one.
pub open spec fn build_system_of(project: Project, tag: Seq<char>) -> BuildSystem {
    match project {
        Project::Electrs => BuildSystem::Cargo,
        Project::Bitcoin => if major_minor(tag).0 >= MODERN_SINCE_MAJOR as nat {
            BuildSystem::Modern
        } else {
            BuildSystem::Legacy
        },
    }
}

/// `n`, or the largest `u64` where `n` is larger.
pub open spec fn capped(n: nat) -> u64 {
    if n > u64::MAX as nat {
        u64::MAX
    } else {
        n as u64
    }
}

/// The name under which a project's directories are filed.
pub open spec fn project_name(project: Project) -> Seq<char> {
    match project {
        Project::Bitcoin => "bitcoin"@,
        Project::Electrs => "electrs"@,
    }
}

/// `child` under `base`.
pub open spec fn joined(base: Seq<char>, child: Seq<char>) -> Seq<char> {
    if base.len() == 0 {
        child
    } else if base.last() == '/' {
        base + child
    } else {
        base + "/"@ + child
    }
}

/// The directory name of a version of a project: the project, a hyphen and
/// the tag without its leading `v`.
pub open spec fn release_name(project: Project, tag: Seq<char>) -> Seq<char> {
    project_name(project) + "-"@ + strip_leading(tag, 'v')
}

/// Where the sources of a version are checked out.
pub open spec fn source_dir_of(build_root: Seq<char>, project: Project, tag: Seq<char>) -> Seq<
    char,
> {
    joined(build_root, release_name(project, tag))
}

/// Where the artifacts of a version are collected.
pub open spec fn output_dir_of(build_root: Seq<char>, project: Project, tag: Seq<char>) -> Seq<
    char,
> {
    joined(joined(build_root, "binaries"@), release_name(project, tag))
}

/// Where the last `/` stands in the text, or -1.
pub open spec fn last_slash(s: Seq<char>) -> int
    decreases s.len(),
{
    if s.len() == 0 {
        -1
    } else if s.last() == '/' {
        s.len() - 1
    } else {
        last_slash(s.drop_last())
    }
}

/// The last component of a path; nothing where the path ends in `/` or is
/// empty.
pub open spec fn file_name_of(path: Seq<char>) -> Option<Seq<char>> {
    let name = path.skip(last_slash(path) + 1);
    if name.len() == 0 {
        None
    } else {
        Some(name)
    }
}

/// Whether the character may stand in a version tag.
pub fn tag_char(c: char) -> (b: bool)
    ensures
        b == is_tag_char(c),
{
    ('a' <= c && c <= 'z') || ('A' <= c && c <= 'Z') || ('0' <= c && c <= '9') || c == '.' || c
        == '-' || c == '_'
}

/// Accepts a tag made of allowed characters and rejects every other, before
/// any of it can reach a shell.
pub fn validate_version_tag(tag: &str) -> (result: Result<(), PipelineError>)
    ensures
        unit_result_view(result) == if valid_tag(tag@) {
            Ok::<(), ErrorView>(())
        } else {
            Err(ErrorView::InvalidTag { tag: tag@ })
        },
{
    let chars = to_chars(tag);
    let mut i: usize = 0;
    while i < chars.len()
        invariant
            i <= chars.len(),
            chars@ == tag@,
            forall|k: int| 0 <= k < i ==> is_tag_char(#[trigger] tag@[k]),
        decreases chars.len() - i,
    {
        if !tag_char(chars[i]) {
            return Err(PipelineError::InvalidTag { tag: String::from_str(tag) });
        }
        i += 1;
    }
    Ok(())
}

/// Quotes the text as one word of a POSIX shell.
pub fn shell_quote(s: &str) -> (quoted: String)
    ensures
        quoted@ == shell_quoted(s@),
{
    let chars = to_chars(s);
    let mut out = String::new();
    push_char(&mut out, '\'');
    let mut i: usize = 0;
    assert(out@ =~= seq!['\''] + quote_body(s@.take(0)));
    while i < chars.len()
        invariant
            i <= chars.len(),
            chars@ == s@,
            out@ == seq!['\''] + quote_body(s@.take(i as int)),
        decreases chars.len() - i,
    {
        assert(s@.take(i + 1).drop_last() =~= s@.take(i as int));
        let ghost before = out@;
        if chars[i] == '\'' {
            push_char(&mut out, '\'');
            push_char(&mut out, '\\');
            push_char(&mut out, '\'');
            push_char(&mut out, '\'');
            assert(out@ =~= before + seq!['\'', '\\', '\'', '\'']);
        } else {
            push_char(&mut out, chars[i]);
            assert(out@ =~= before + seq![chars@[i as int]]);
        }
        assert(out@ =~= seq!['\''] + quote_body(s@.take(i + 1)));
        i += 1;
    }
    assert(s@.take(chars.len() as int) =~= s@);
    push_char(&mut out, '\'');
    assert(out@ =~= shell_quoted(s@));
    out
}

/// Reads the digits that start at `start`: how many there are, and their
/// value, capped at the largest `u64`.
fn read_digits(chars: &Vec<char>, start: usize) -> (r: (usize, u64))
    requires
        start <= chars.len(),
    ensures
        r.0 == digit_run(chars@.skip(start as int)),
        start + r.0 <= chars.len(),
        r.1 == capped(digits_value(chars@.skip(start as int).take(r.0 as int))),
{
    let ghost s = chars@.skip(start as int);
    let mut n: usize = 0;
    let mut value: u64 = 0;
    assert(s.skip(0) =~= s);
    assert(s.take(0) =~= Seq::<char>::empty());
    while start + n < chars.len() && '0' <= chars[start + n] && chars[start + n] <= '9'
        invariant
            start + n <= chars.len(),
            s == chars@.skip(start as int),
            digit_run(s) == n + digit_run(s.skip(n as int)),
            value == capped(digits_value(s.take(n as int))),
        decreases chars.len() - n,
    {
        let c = chars[start + n];
        assert(s[n as int] == c);
        assert(s.skip(n as int)[0] == c);
        assert(s.skip(n as int).drop_first() =~= s.skip(n + 1));
        assert(s.take(n + 1).drop_last() =~= s.take(n as int));
        assert(s.take(n + 1).last() == c);
        let d: u64 = char_digit(c);
        let ghost before = digits_value(s.take(n as int));
        assert(digits_value(s.take(n + 1)) == before * 10 + d);
        value = if value > (u64::MAX - d) / 10 {
            u64::MAX
        } else {
            value * 10 + d
        };
        n += 1;
    }
    (n, value)
}

/// The value of a decimal digit.
fn char_digit(c: char) -> (d: u64)
    requires
        is_digit(c),
    ensures
        d == c as nat - '0' as nat,
        d <= 9,
{
    if c == '0' {
        0
    } else if c == '1' {
        1
    } else if c == '2' {
        2
    } else if c == '3' {
        3
    } else if c == '4' {
        4
    } else if c == '5' {
        5
    } else if c == '6' {
        6
    } else if c == '7' {
        7
    } else if c == '8' {
        8
    } else {
        9
    }
}

/// The `major.minor` pair that a tag starts with, each number capped at the
/// largest `u64`; `(0, 0)` where the tag starts with no such pair.
pub fn parse_major_minor(tag: &str) -> (pair: (u64, u64))
    ensures
        pair.0 == capped(major_minor(tag@).0),
        pair.1 == capped(major_minor(tag@).1),
{
    let stripped = strip_leading_char(tag, 'v');
    let chars = to_chars(stripped.as_str());
    assert(chars@.skip(0) =~= chars@);
    let (a, major) = read_digits(&chars, 0);
    if a == 0 || a >= chars.len() || chars[a] != '.' {
        return (0, 0);
    }
    let (b, minor) = read_digits(&chars, a + 1);
    if b == 0 {
        return (0, 0);
    }
    assert(chars@.skip(0).take(a as int) =~= chars@.take(a as int));
    (major, minor)
}

/// The build system for a version of a project.
pub fn select_build_system(project: Project, tag: &str) -> (system: BuildSystem)
    ensures
        system == build_system_of(project, tag@),
{
    match project {
        Project::Electrs => BuildSystem::Cargo,
        Project::Bitcoin => {
            let (major, _minor) = parse_major_minor(tag);
            if major >= MODERN_SINCE_MAJOR {
                BuildSystem::Modern
            } else {
                BuildSystem::Legacy
            }
        },
    }
}

/// `child` under `base`, with one `/` between them.
pub fn join_path(base: &str, child: &str) -> (path: String)
    ensures
        path@ == joined(base@, child@),
{
    let chars = to_chars(base);
    let mut path = String::from_str(base);
    if chars.len() > 0 && chars[chars.len() - 1] != '/' {
        path.append("/");
    }
    path.append(child);
    proof {
        if base@.len() == 0 {
            assert(path@ =~= child@);
        }
    }
    path
}

/// The directory name of a version of a project.
pub fn release_dir_name(project: Project, tag: &str) -> (name: String)
    ensures
        name@ == release_name(project, tag@),
{
    let mut name = match project {
        Project::Bitcoin => String::from_str("bitcoin"),
        Project::Electrs => String::from_str("electrs"),
    };
    name.append("-");
    name.append(strip_leading_char(tag, 'v').as_str());
    name
}

/// The last component of a path.
pub fn file_name(path: &str) -> (name: Option<String>)
    ensures
        optional_text(name) == file_name_of(path@),
{
    let chars = to_chars(path);
    let mut start: usize = chars.len();
    assert(path@.take(chars.len() as int) =~= path@);
    while start > 0 && chars[start - 1] != '/'
        invariant
            start <= chars.len(),
            chars@ == path@,
            last_slash(path@) == last_slash(path@.take(start as int)),
        decreases start,
    {
        assert(path@.take(start as int).drop_last() =~= path@.take(start - 1));
        start -= 1;
    }
    proof {
        if start > 0 {
            assert(path@.take(start as int).last() == '/');
        }
        assert(last_slash(path@) == start - 1);
    }
    if start == chars.len() {
        return None;
    }
    let mut name = String::new();
    let mut i: usize = start;
    while i < chars.len()
        invariant
            start <= i <= chars.len(),
            name@ == chars@.subrange(start as int, i as int),
        decreases chars.len() - i,
    {
        push_char(&mut name, chars[i]);
        i += 1;
    }
    assert(chars@.subrange(start as int, chars.len() as int) =~= path@.skip(start as int));
    Some(name)
}

/// A tag that passed validation is quoted as it stands: nothing in it
/// needs an escape, so the shell sees the tag and nothing else.
pub proof fn lemma_valid_tag_quotes_plainly(tag: Seq<char>)
    requires
        valid_tag(tag),
    ensures
        quote_body(tag) == tag,
        shell_quoted(tag) == seq!['\''] + tag + seq!['\''],
    decreases tag.len(),
{
    if tag.len() > 0 {
        let init = tag.drop_last();
        assert forall|i: int| 0 <= i < init.len() implies is_tag_char(#[trigger] init[i]) by {
            assert(init[i] == tag[i]);
        }
        lemma_valid_tag_quotes_plainly(init);
        assert(is_tag_char(tag[tag.len() - 1]));
        assert(quote_body(tag) =~= tag);
    } else {
        assert(quote_body(tag) =~= tag);
    }
}

/// The decimal numeral of a number denotes that number.
pub proof fn lemma_decimal_round_trip(n: nat)
    ensures
        digits_value(decimal(n)) == n,
    decreases n,
{
    if n < 10 {
        let s = decimal(n);
        assert(s.drop_last() =~= Seq::<char>::empty());
        assert(digits_value(s.drop_last()) == 0);
        assert(s.last() == digit(n as int));
    } else {
        lemma_decimal_round_trip(n / 10);
        let s = decimal(n);
        assert(s.drop_last() =~= decimal(n / 10));
        assert(s.last() == digit((n % 10) as int));
    }
}

} // verus!
