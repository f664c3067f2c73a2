//! What the command runner decides: how raw output becomes log text, and how
//! an exit becomes a result.
//!
//! Spawning, piping and waiting are the caller's business. It hands over the
//! bytes that it read and the way the process ended.

use crate::errors::{ErrorView, Exit, PipelineError};
use crate::text::{contains_text, occurs_at, optional_text, push_char, to_chars};
use vstd::prelude::*;
use vstd::string::*;
use vstd::utf8::*;

verus! {

/// The text with every carriage return that stands directly before a line
/// feed taken out. A carriage return before anything else stays, so that a
/// reader can return to the start of the line as a terminal would.
pub open spec fn sanitised(s: Seq<char>) -> Seq<char>
    decreases s.len(),
{
    if s.len() == 0 {
        s
    } else if s.len() >= 2 && s[0] == '\r' && s[1] == '\n' {
        seq!['\n'] + sanitised(s.skip(2))
    } else {
        seq![s[0]] + sanitised(s.drop_first())
    }
}

/// The text that `String::from_utf8_lossy` makes of the bytes.
pub uninterp spec fn lossy_text(bytes: Seq<u8>) -> Seq<char>;

/// Whether `char::is_whitespace` holds of the character.
pub uninterp spec fn is_white_space(c: char) -> bool;

/// `s` without its leading white space.
pub open spec fn trimmed_start(s: Seq<char>) -> Seq<char>
    decreases s.len(),
{
    if s.len() > 0 && is_white_space(s.first()) {
        trimmed_start(s.drop_first())
    } else {
        s
    }
}

/// `s` without its trailing white space.
pub open spec fn trimmed_end(s: Seq<char>) -> Seq<char>
    decreases s.len(),
{
    if s.len() > 0 && is_white_space(s.last()) {
        trimmed_end(s.drop_last())
    } else {
        s
    }
}

/// `s` without the white space at either end.
pub open spec fn trimmed(s: Seq<char>) -> Seq<char> {
    trimmed_end(trimmed_start(s))
}

/// What a drained chunk contributes to the log: its text, decoded leniently
/// and sanitised, or nothing where that text is empty.
pub open spec fn chunk_text(bytes: Seq<u8>) -> Option<Seq<char>> {
    let text = sanitised(lossy_text(bytes));
    if text.len() == 0 {
        None
    } else {
        Some(text)
    }
}

/// What a probe reports: the trimmed output of a command that succeeded and
/// printed valid, non-blank UTF-8; nothing otherwise.
pub open spec fn probe_text(success: bool, stdout: Seq<u8>) -> Option<Seq<char>> {
    if success && valid_utf8(stdout) && trimmed(decode_utf8(stdout)).len() > 0 {
        Some(trimmed(decode_utf8(stdout)))
    } else {
        None
    }
}

/// What the runner saw of a command.
#[derive(Clone, Debug, PartialEq, Eq)]
pub enum RunReport {
    /// The process ran to its end.
    Finished(Exit),
    /// The process could not be started, for the reason given.
    NotSpawned(String),
}

/// A run report over plain values.
pub enum RunReportView {
    Finished(Exit),
    NotSpawned(Seq<char>),
}

impl View for RunReport {
    type V = RunReportView;

    open spec fn view(&self) -> RunReportView {
        match self {
            RunReport::Finished(exit) => RunReportView::Finished(*exit),
            RunReport::NotSpawned(cause) => RunReportView::NotSpawned(cause@),
        }
    }
}

/// The result of a command: success for exit code 0 and for nothing else.
pub open spec fn outcome_of(context: Seq<char>, command: Seq<char>, report: RunReportView) -> Result<
    (),
    ErrorView,
> {
    match report {
        RunReportView::Finished(exit) => if exit == Exit::Code(0) {
            Ok(())
        } else {
            Err(ErrorView::CommandFailed { context, exit, command })
        },
        RunReportView::NotSpawned(cause) => Err(ErrorView::SpawnFailed { context, command, cause }),
    }
}

/// The view of a result that carries a pipeline failure.
pub open spec fn unit_result_view(r: Result<(), PipelineError>) -> Result<(), ErrorView> {
    match r {
        Ok(()) => Ok(()),
        Err(e) => Err(e@),
    }
}

/// Decodes bytes leniently: what is not UTF-8 becomes replacement characters.
///
/// Trusted: wraps `String::from_utf8_lossy`. Its result is named, not
/// described; of valid UTF-8 it is the text that the bytes encode.
#[verifier::external_body]
fn lossy_decode(bytes: &[u8]) -> (s: String)
    ensures
        s@ == lossy_text(bytes@),
        valid_utf8(bytes@) ==> s@ == decode_utf8(bytes@),
{
    String::from_utf8_lossy(bytes).into_owned()
}

/// Decodes bytes strictly.
///
/// Trusted: wraps `std::str::from_utf8`, which accepts exactly the valid
/// UTF-8 sequences and gives the text that they encode.
#[verifier::external_body]
fn strict_decode(bytes: &[u8]) -> (s: Option<String>)
    ensures
        optional_text(s) == if valid_utf8(bytes@) {
            Some(decode_utf8(bytes@))
        } else {
            None
        },
{
    match std::str::from_utf8(bytes) {
        Ok(text) => Some(text.to_owned()),
        Err(_) => None,
    }
}

/// Whether the character is white space.
///
/// Trusted: wraps `char::is_whitespace`, whose answer is named.
#[verifier::external_body]
fn white_space(c: char) -> (b: bool)
    ensures
        b == is_white_space(c),
{
    c.is_whitespace()
}

/// Collapses every `\r\n` to `\n` and passes a lone `\r` through.
pub fn sanitise_cr(s: &str) -> (out: String)
    ensures
        out@ == sanitised(s@),
        !contains_text(s@, seq!['\r', '\n']) ==> out@ == s@,
{
    let chars = to_chars(s);
    let mut out = String::new();
    let mut i: usize = 0;
    assert(s@.skip(0) =~= s@);
    assert(out@ + sanitised(s@) =~= sanitised(s@));
    while i < chars.len()
        invariant
            i <= chars.len(),
            chars@ == s@,
            out@ + sanitised(s@.skip(i as int)) == sanitised(s@),
        decreases chars.len() - i,
    {
        let ghost rest = s@.skip(i as int);
        let ghost before = out@;
        if chars[i] == '\r' && i + 1 < chars.len() && chars[i + 1] == '\n' {
            push_char(&mut out, '\n');
            assert(rest.skip(2) =~= s@.skip(i + 2));
            assert(out@ + sanitised(s@.skip(i + 2)) =~= before + sanitised(rest));
            i += 2;
        } else {
            push_char(&mut out, chars[i]);
            assert(rest.drop_first() =~= s@.skip(i + 1));
            assert(out@ + sanitised(s@.skip(i + 1)) =~= before + sanitised(rest));
            i += 1;
        }
    }
    assert(out@ + sanitised(s@.skip(chars.len() as int)) =~= out@);
    proof {
        if !contains_text(s@, seq!['\r', '\n']) {
            lemma_sanitised_without_crlf(s@);
        }
    }
    out
}

/// Removes the white space at either end.
pub fn trim(s: &str) -> (out: String)
    ensures
        out@ == trimmed(s@),
{
    let chars = to_chars(s);
    let mut start: usize = 0;
    assert(s@.skip(0) =~= s@);
    while start < chars.len() && white_space(chars[start])
        invariant
            start <= chars.len(),
            chars@ == s@,
            trimmed_start(s@) == trimmed_start(s@.skip(start as int)),
        decreases chars.len() - start,
    {
        assert(s@.skip(start as int).drop_first() =~= s@.skip(start + 1));
        start += 1;
    }
    assert(trimmed_start(s@) == s@.skip(start as int));
    let mut end: usize = chars.len();
    assert(s@.subrange(start as int, end as int) =~= s@.skip(start as int));
    while end > start && white_space(chars[end - 1])
        invariant
            start <= end <= chars.len(),
            chars@ == s@,
            trimmed(s@) == trimmed_end(s@.subrange(start as int, end as int)),
        decreases end - start,
    {
        assert(s@.subrange(start as int, end as int).drop_last() =~= s@.subrange(
            start as int,
            end - 1,
        ));
        end -= 1;
    }
    let mut out = String::new();
    let mut i: usize = start;
    while i < end
        invariant
            start <= i <= end <= chars.len(),
            out@ == chars@.subrange(start as int, i as int),
        decreases end - i,
    {
        push_char(&mut out, chars[i]);
        i += 1;
    }
    out
}

/// What a drained chunk of a child's output contributes to the log.
pub fn decode_chunk(bytes: &[u8]) -> (text: Option<String>)
    ensures
        optional_text(text) == chunk_text(bytes@),
        valid_utf8(bytes@) && !contains_text(decode_utf8(bytes@), seq!['\r', '\n'])
            && bytes@.len() > 0 ==> optional_text(text) == Some(decode_utf8(bytes@)),
{
    let decoded = lossy_decode(bytes);
    let clean = sanitise_cr(decoded.as_str());
    proof {
        if valid_utf8(bytes@) && bytes@.len() > 0 {
            lemma_decode_nonempty(bytes@);
        }
    }
    if clean.as_str().is_empty() {
        None
    } else {
        Some(clean)
    }
}

/// The line that announces a command in the log.
pub fn command_banner(command: &str) -> (line: String)
    ensures
        line@ == "\n$ "@ + command@ + "\n"@,
{
    let mut line = String::from_str("\n$ ");
    line.append(command);
    line.append("\n");
    line
}

/// The result of a command, given how the runner saw it end. `context` says
/// which step the command was; it goes into the failure.
pub fn command_outcome(context: &str, command: &str, report: &RunReport) -> (result: Result<
    (),
    PipelineError,
>)
    ensures
        unit_result_view(result) == outcome_of(context@, command@, report@),
        result is Ok <==> report@ == RunReportView::Finished(Exit::Code(0)),
{
    match report {
        RunReport::Finished(exit) => {
            if exit.success() {
                Ok(())
            } else {
                Err(
                    PipelineError::CommandFailed {
                        context: String::from_str(context),
                        exit: *exit,
                        command: String::from_str(command),
                    },
                )
            }
        },
        RunReport::NotSpawned(cause) => Err(
            PipelineError::SpawnFailed {
                context: String::from_str(context),
                command: String::from_str(command),
                cause: cause.clone(),
            },
        ),
    }
}

/// What a probe reports, given whether its command succeeded and what it
/// printed.
pub fn probe_outcome(success: bool, stdout: &[u8]) -> (text: Option<String>)
    ensures
        optional_text(text) == probe_text(success, stdout@),
{
    if !success {
        return None;
    }
    match strict_decode(stdout) {
        Some(decoded) => {
            let clean = trim(decoded.as_str());
            if clean.as_str().is_empty() {
                None
            } else {
                Some(clean)
            }
        },
        None => None,
    }
}

/// Text without a carriage return directly before a line feed is left as
/// it is.
pub proof fn lemma_sanitised_without_crlf(s: Seq<char>)
    requires
        !contains_text(s, seq!['\r', '\n']),
    ensures
        sanitised(s) == s,
    decreases s.len(),
{
    let crlf = seq!['\r', '\n'];
    if s.len() == 0 {
    } else {
        if s.len() >= 2 && s[0] == '\r' && s[1] == '\n' {
            assert(s.subrange(0, 2) =~= crlf);
            assert(occurs_at(s, crlf, 0));
        }
        let rest = s.drop_first();
        assert forall|i: int| !occurs_at(rest, crlf, i) by {
            if occurs_at(rest, crlf, i) {
                assert(s.subrange(i + 1, i + 1 + 2) =~= rest.subrange(i, i + 2));
                assert(occurs_at(s, crlf, i + 1));
            }
        }
        lemma_sanitised_without_crlf(rest);
        assert(seq![s[0]] + rest =~= s);
    }
}

/// How many times a carriage return stands directly before a line feed.
pub open spec fn line_end_pairs(s: Seq<char>) -> nat
    decreases s.len(),
{
    if s.len() == 0 {
        0
    } else if s.len() >= 2 && s[0] == '\r' && s[1] == '\n' {
        1 + line_end_pairs(s.skip(2))
    } else {
        line_end_pairs(s.drop_first())
    }
}

/// Sanitising drops one character for each carriage return that stands
/// directly before a line feed, and nothing else: no text is lost.
pub proof fn lemma_sanitised_length(s: Seq<char>)
    ensures
        sanitised(s).len() + line_end_pairs(s) == s.len(),
        2 * line_end_pairs(s) <= s.len(),
    decreases s.len(),
{
    if s.len() == 0 {
    } else if s.len() >= 2 && s[0] == '\r' && s[1] == '\n' {
        lemma_sanitised_length(s.skip(2));
    } else {
        lemma_sanitised_length(s.drop_first());
    }
}

/// Valid UTF-8 of at least one byte decodes to at least one character.
proof fn lemma_decode_nonempty(bytes: Seq<u8>)
    requires
        valid_utf8(bytes),
        bytes.len() > 0,
    ensures
        decode_utf8(bytes).len() > 0,
{
}

/// What is left of a text without its leading white space is the end of
/// the text, and does not start with white space.
pub proof fn lemma_trimmed_start(s: Seq<char>)
    ensures
        trimmed_start(s).len() <= s.len(),
        trimmed_start(s) == s.skip(s.len() - trimmed_start(s).len()),
        trimmed_start(s).len() > 0 ==> !is_white_space(trimmed_start(s).first()),
        forall|i: int| 0 <= i < s.len() - trimmed_start(s).len() ==> is_white_space(s[i]),
    decreases s.len(),
{
    if s.len() > 0 && is_white_space(s.first()) {
        let rest = s.drop_first();
        lemma_trimmed_start(rest);
        let kept = trimmed_start(rest);
        assert(rest.skip(rest.len() - kept.len()) =~= s.skip(s.len() - kept.len()));
        assert forall|i: int| 0 <= i < s.len() - kept.len() implies is_white_space(s[i]) by {
            if i > 0 {
                assert(s[i] == rest[i - 1]);
            }
        }
    } else {
        assert(s.skip(0) =~= s);
    }
}

/// What is left of a text without its trailing white space is the start
/// of the text, and does not end with white space.
pub proof fn lemma_trimmed_end(s: Seq<char>)
    ensures
        trimmed_end(s).len() <= s.len(),
        trimmed_end(s) == s.take(trimmed_end(s).len() as int),
        trimmed_end(s).len() > 0 ==> !is_white_space(trimmed_end(s).last()),
        forall|i: int| trimmed_end(s).len() <= i < s.len() ==> is_white_space(s[i]),
    decreases s.len(),
{
    if s.len() > 0 && is_white_space(s.last()) {
        let rest = s.drop_last();
        lemma_trimmed_end(rest);
        let kept = trimmed_end(rest);
        assert(rest.take(kept.len() as int) =~= s.take(kept.len() as int));
        assert forall|i: int| kept.len() <= i < s.len() implies is_white_space(s[i]) by {
            if i < rest.len() {
                assert(s[i] == rest[i]);
            }
        }
    } else {
        assert(s.take(s.len() as int) =~= s);
    }
}

/// A trimmed text is a stretch of the text with nothing but white space
/// before and after it, and neither starts nor ends with white space.
pub proof fn lemma_trimmed(s: Seq<char>)
    ensures
        ({
            let from = s.len() - trimmed_start(s).len();
            let to = from + trimmed(s).len();
            &&& 0 <= from <= to <= s.len()
            &&& trimmed(s) == s.subrange(from, to)
            &&& forall|i: int| 0 <= i < from ==> is_white_space(s[i])
            &&& forall|i: int| to <= i < s.len() ==> is_white_space(s[i])
            &&& trimmed(s).len() > 0 ==> !is_white_space(trimmed(s).first()) && !is_white_space(
                trimmed(s).last(),
            )
        }),
{
    let front = trimmed_start(s);
    lemma_trimmed_start(s);
    lemma_trimmed_end(front);
    let from = s.len() - front.len();
    let to = from + trimmed(s).len();
    assert(trimmed(s) =~= s.subrange(from, to));
    assert forall|i: int| to <= i < s.len() implies is_white_space(s[i]) by {
        assert(s[i] == front[i - from]);
    }
    if trimmed(s).len() > 0 {
        assert(trimmed(s).first() == front.first());
    }
}

} // verus!
