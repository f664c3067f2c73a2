//! The observer's state: the log, the progress, the version lists and the
//! notice on show, and how each message changes them.
//!
//! Drawing is the caller's business. This module only keeps the books.

use crate::messages::{AppMessage, ConfirmRequest, MessageView};
use crate::text::{duplicate_strings, push_char, to_chars, views};
use vstd::prelude::*;
use vstd::string::*;

verus! {

/// How many lines the log may hold before its oldest lines are dropped.
pub const MAX_LOG_LINES: usize = 4000;

/// How many lines are kept when the oldest are dropped.
pub const KEPT_LOG_LINES: usize = 2000;

/// The entry of a version list that stands for a list still being fetched.
pub const LOADING_ENTRY: &'static str = "Loading...";

/// How many line feeds the text holds.
pub open spec fn line_feeds(s: Seq<char>) -> nat
    decreases s.len(),
{
    if s.len() == 0 {
        0
    } else {
        line_feeds(s.drop_first()) + if s[0] == '\n' {
            1nat
        } else {
            0nat
        }
    }
}

/// The text after its first `n` lines: all up to the `n`-th line feed,
/// that line feed included, is dropped.
pub open spec fn after_lines(s: Seq<char>, n: nat) -> Seq<char>
    decreases s.len(),
{
    if n == 0 || s.len() == 0 {
        s
    } else if s[0] == '\n' {
        after_lines(s.drop_first(), (n - 1) as nat)
    } else {
        after_lines(s.drop_first(), n)
    }
}

/// The log as it is kept: a log of more than the allowed number of lines
/// loses its oldest lines, down to one line short of the number kept.
pub open spec fn kept_log(s: Seq<char>) -> Seq<char> {
    if line_feeds(s) > MAX_LOG_LINES {
        after_lines(s, (line_feeds(s) - KEPT_LOG_LINES + 1) as nat)
    } else {
        s
    }
}

/// A notice on show.
#[derive(Clone, Debug, PartialEq, Eq)]
pub enum Modal {
    /// A notice that is acknowledged.
    Alert { title: String, message: String, is_error: bool },
    /// A question that is answered with yes or no.
    Confirm { title: String, message: String },
}

/// A notice over plain values.
pub enum ModalView {
    Alert { title: Seq<char>, message: Seq<char>, is_error: bool },
    Confirm { title: Seq<char>, message: Seq<char> },
}

impl View for Modal {
    type V = ModalView;

    open spec fn view(&self) -> ModalView {
        match self {
            Modal::Alert { title, message, is_error } => ModalView::Alert {
                title: title@,
                message: message@,
                is_error: *is_error,
            },
            Modal::Confirm { title, message } => ModalView::Confirm {
                title: title@,
                message: message@,
            },
        }
    }
}

/// The view of an optional notice.
pub open spec fn optional_modal(m: Option<Modal>) -> Option<ModalView> {
    match m {
        Some(modal) => Some(modal@),
        None => None,
    }
}

/// The observer's state.
#[derive(Clone, Debug, PartialEq, Eq)]
pub struct UiState {
    pub bitcoin_versions: Vec<String>,
    pub selected_bitcoin: String,
    pub electrs_versions: Vec<String>,
    pub selected_electrs: String,
    pub log_buffer: String,
    pub progress: u8,
    pub is_busy: bool,
    pub modal: Option<Modal>,
}

/// The observer's state over plain values.
pub struct UiView {
    pub bitcoin_versions: Seq<Seq<char>>,
    pub selected_bitcoin: Seq<char>,
    pub electrs_versions: Seq<Seq<char>>,
    pub selected_electrs: Seq<char>,
    pub log_buffer: Seq<char>,
    pub progress: int,
    pub is_busy: bool,
    pub modal: Option<ModalView>,
}

impl View for UiState {
    type V = UiView;

    open spec fn view(&self) -> UiView {
        UiView {
            bitcoin_versions: views(self.bitcoin_versions@),
            selected_bitcoin: self.selected_bitcoin@,
            electrs_versions: views(self.electrs_versions@),
            selected_electrs: self.selected_electrs@,
            log_buffer: self.log_buffer@,
            progress: self.progress as int,
            is_busy: self.is_busy,
            modal: optional_modal(self.modal),
        }
    }
}

/// The state before anything has happened: both lists are being fetched.
pub open spec fn ui_start() -> UiView {
    UiView {
        bitcoin_versions: seq![LOADING_ENTRY@],
        selected_bitcoin: LOADING_ENTRY@,
        electrs_versions: seq![LOADING_ENTRY@],
        selected_electrs: LOADING_ENTRY@,
        log_buffer: Seq::empty(),
        progress: 0,
        is_busy: false,
        modal: None,
    }
}

/// The progress held to the scale.
pub open spec fn clamped(percent: int) -> int {
    if percent > 100 {
        100
    } else {
        percent
    }
}

/// The selection after a list has come: its first entry, or the selection
/// as it was where the list is empty.
pub open spec fn selection_after(selected: Seq<char>, versions: Seq<Seq<char>>) -> Seq<char> {
    if versions.len() > 0 {
        versions[0]
    } else {
        selected
    }
}

/// The state after a message.
pub open spec fn ui_next(v: UiView, m: MessageView) -> UiView {
    match m {
        MessageView::Log(text) => UiView { log_buffer: kept_log(v.log_buffer + text), ..v },
        MessageView::Progress(percent) => UiView { progress: clamped(percent), ..v },
        MessageView::BitcoinVersionsLoaded(versions) => UiView {
            selected_bitcoin: selection_after(v.selected_bitcoin, versions),
            bitcoin_versions: versions,
            ..v
        },
        MessageView::ElectrsVersionsLoaded(versions) => UiView {
            selected_electrs: selection_after(v.selected_electrs, versions),
            electrs_versions: versions,
            ..v
        },
        MessageView::ShowDialog { title, message, is_error } => UiView {
            modal: Some(ModalView::Alert { title, message, is_error }),
            ..v
        },
        MessageView::TaskDone => UiView { is_busy: false, progress: 0, ..v },
    }
}

/// The state after a question has been offered: the question is on show
/// if nothing else was, and nothing has changed if something was.
pub open spec fn ui_asked(v: UiView, title: Seq<char>, message: Seq<char>) -> UiView {
    if v.modal is None {
        UiView { modal: Some(ModalView::Confirm { title, message }), ..v }
    } else {
        v
    }
}

/// Counts the line feeds.
pub fn count_line_feeds(chars: &Vec<char>) -> (n: usize)
    ensures
        n == line_feeds(chars@),
{
    let mut n: usize = 0;
    let mut i: usize = chars.len();
    assert(chars@.skip(chars.len() as int) =~= Seq::<char>::empty());
    while i > 0
        invariant
            i <= chars.len(),
            n == line_feeds(chars@.skip(i as int)),
            n <= chars.len() - i,
        decreases i,
    {
        i -= 1;
        assert(chars@.skip(i as int).drop_first() =~= chars@.skip(i + 1));
        if chars[i] == '\n' {
            n += 1;
        }
    }
    assert(chars@.skip(0) =~= chars@);
    n
}

/// The text after its first `n` lines.
pub fn skip_lines(chars: &Vec<char>, n: usize) -> (rest: String)
    ensures
        rest@ == after_lines(chars@, n as nat),
{
    let mut left: usize = n;
    let mut i: usize = 0;
    assert(chars@.skip(0) =~= chars@);
    while i < chars.len() && left > 0
        invariant
            i <= chars.len(),
            after_lines(chars@, n as nat) == after_lines(chars@.skip(i as int), left as nat),
        decreases chars.len() - i,
    {
        assert(chars@.skip(i as int).drop_first() =~= chars@.skip(i + 1));
        if chars[i] == '\n' {
            left -= 1;
        }
        i += 1;
    }
    let mut rest = String::new();
    let ghost start = i;
    while i < chars.len()
        invariant
            start <= i <= chars.len(),
            rest@ == chars@.subrange(start as int, i as int),
        decreases chars.len() - i,
    {
        push_char(&mut rest, chars[i]);
        i += 1;
    }
    assert(chars@.subrange(start as int, chars.len() as int) =~= chars@.skip(start as int));
    rest
}

/// Adds text to the log and drops the oldest lines where the log has
/// grown beyond what it may hold.
pub fn append_log(buffer: &mut String, text: &str)
    ensures
        final(buffer)@ == kept_log(old(buffer)@ + text@),
{
    buffer.append(text);
    let chars = to_chars(buffer.as_str());
    let count = count_line_feeds(&chars);
    if count > MAX_LOG_LINES {
        *buffer = skip_lines(&chars, count - KEPT_LOG_LINES + 1);
    }
}

impl UiState {
    /// The state before anything has happened.
    pub fn new() -> (state: UiState)
        ensures
            state@ == ui_start(),
    {
        let mut bitcoin: Vec<String> = Vec::new();
        bitcoin.push(String::from_str(LOADING_ENTRY));
        let mut electrs: Vec<String> = Vec::new();
        electrs.push(String::from_str(LOADING_ENTRY));
        assert(views(bitcoin@) =~= seq![LOADING_ENTRY@]);
        assert(views(electrs@) =~= seq![LOADING_ENTRY@]);
        UiState {
            bitcoin_versions: bitcoin,
            selected_bitcoin: String::from_str(LOADING_ENTRY),
            electrs_versions: electrs,
            selected_electrs: String::from_str(LOADING_ENTRY),
            log_buffer: String::new(),
            progress: 0,
            is_busy: false,
            modal: None,
        }
    }

    /// Takes in a message.
    pub fn apply(&mut self, message: &AppMessage)
        ensures
            final(self)@ == ui_next(old(self)@, message@),
    {
        match message {
            AppMessage::Log(text) => {
                append_log(&mut self.log_buffer, text.as_str());
            },
            AppMessage::Progress(percent) => {
                self.progress = if *percent > 100 {
                    100
                } else {
                    *percent
                };
            },
            AppMessage::BitcoinVersionsLoaded(versions) => {
                if versions.len() > 0 {
                    self.selected_bitcoin = versions[0].clone();
                }
                self.bitcoin_versions = duplicate_strings(versions);
            },
            AppMessage::ElectrsVersionsLoaded(versions) => {
                if versions.len() > 0 {
                    self.selected_electrs = versions[0].clone();
                }
                self.electrs_versions = duplicate_strings(versions);
            },
            AppMessage::ShowDialog { title, message, is_error } => {
                self.modal = Some(
                    Modal::Alert {
                        title: title.clone(),
                        message: message.clone(),
                        is_error: *is_error,
                    },
                );
            },
            AppMessage::TaskDone => {
                self.is_busy = false;
                self.progress = 0;
            },
        }
    }

    /// Puts a question on show if no notice is on show, and says whether it
    /// did. A question that finds a notice on show has to wait its turn.
    pub fn offer_confirmation(&mut self, request: &ConfirmRequest) -> (shown: bool)
        ensures
            shown == (old(self)@.modal is None),
            final(self)@ == ui_asked(old(self)@, request.title@, request.message@),
    {
        if self.modal.is_none() {
            self.modal = Some(
                Modal::Confirm { title: request.title.clone(), message: request.message.clone() },
            );
            true
        } else {
            false
        }
    }

    /// Takes the notice off show.
    pub fn dismiss(&mut self)
        ensures
            final(self)@ == (UiView { modal: None, ..old(self)@ }),
    {
        self.modal = None;
    }
}

/// Dropping the first `n` lines of a text that has at least `n` line
/// feeds leaves `n` line feeds fewer.
pub proof fn lemma_after_lines_count(s: Seq<char>, n: nat)
    requires
        n <= line_feeds(s),
    ensures
        line_feeds(after_lines(s, n)) == line_feeds(s) - n,
        after_lines(s, n).len() <= s.len(),
    decreases s.len(),
{
    if n == 0 || s.len() == 0 {
    } else if s[0] == '\n' {
        lemma_after_lines_count(s.drop_first(), (n - 1) as nat);
    } else {
        lemma_after_lines_count(s.drop_first(), n);
    }
}

/// What is left after dropping lines is the end of the text.
pub proof fn lemma_after_lines_is_suffix(s: Seq<char>, n: nat)
    ensures
        after_lines(s, n) == s.skip(s.len() - after_lines(s, n).len()),
        after_lines(s, n).len() <= s.len(),
    decreases s.len(),
{
    if n == 0 || s.len() == 0 {
        assert(s.skip(0) =~= s);
    } else {
        let rest = s.drop_first();
        let m = if s[0] == '\n' {
            (n - 1) as nat
        } else {
            n
        };
        lemma_after_lines_is_suffix(rest, m);
        let kept = after_lines(rest, m);
        assert(rest.skip(rest.len() - kept.len()) =~= s.skip(s.len() - kept.len()));
    }
}

/// The log as it is kept never holds more lines than it may, and is the
/// end of the log as it came: only the oldest text is ever dropped.
pub proof fn lemma_kept_log_is_bounded(s: Seq<char>)
    ensures
        line_feeds(kept_log(s)) <= MAX_LOG_LINES,
        kept_log(s) == s.skip(s.len() - kept_log(s).len()),
        line_feeds(s) <= MAX_LOG_LINES ==> kept_log(s) == s,
{
    if line_feeds(s) > MAX_LOG_LINES {
        let n = (line_feeds(s) - KEPT_LOG_LINES + 1) as nat;
        lemma_after_lines_count(s, n);
        lemma_after_lines_is_suffix(s, n);
    } else {
        assert(s.skip(0) =~= s);
    }
}

} // verus!
