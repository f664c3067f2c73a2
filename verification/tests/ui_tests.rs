use bitforge::messages::{AppMessage, ConfirmRequest};
use bitforge::text::to_chars;
use bitforge::ui::{append_log, count_line_feeds, skip_lines, Modal, UiState};

fn strings(items: &[&str]) -> Vec<String> {
    items.iter().map(|s| s.to_string()).collect()
}

#[test]
fn log_grows_until_it_is_too_long() {
    let mut buffer = String::new();
    append_log(&mut buffer, "one\n");
    append_log(&mut buffer, "two");
    assert_eq!(buffer, "one\ntwo");
    let mut long = String::new();
    for i in 0..4000 {
        long.push_str(&format!("line {}\n", i));
    }
    let mut buffer = String::new();
    append_log(&mut buffer, &long);
    assert_eq!(buffer, long);
    append_log(&mut buffer, "line 4000\n");
    assert_eq!(buffer.matches('\n').count(), 1999);
    assert!(buffer.starts_with("line 2002\n"));
    assert!(buffer.ends_with("line 4000\n"));
}

#[test]
fn log_trimming_matches_the_line_count_rule() {
    let mut text = String::new();
    for i in 0..5000 {
        text.push_str(&format!("{}\n", i));
    }
    text.push_str("tail without line feed");
    let mut buffer = String::new();
    append_log(&mut buffer, &text);
    let newline_count = 5000usize;
    let drop_count = newline_count - 2000;
    let split = text.char_indices().filter(|(_, c)| *c == '\n').nth(drop_count).unwrap().0;
    assert_eq!(buffer, &text[split + 1..]);
}

#[test]
fn lines_are_counted_and_skipped() {
    let chars = to_chars("a\nb\n\nc");
    assert_eq!(count_line_feeds(&chars), 3);
    assert_eq!(skip_lines(&chars, 0), "a\nb\n\nc");
    assert_eq!(skip_lines(&chars, 1), "b\n\nc");
    assert_eq!(skip_lines(&chars, 2), "\nc");
    assert_eq!(skip_lines(&chars, 3), "c");
    assert_eq!(skip_lines(&chars, 4), "");
    assert_eq!(count_line_feeds(&Vec::new()), 0);
}

#[test]
fn state_starts_loading() {
    let state = UiState::new();
    assert_eq!(state.bitcoin_versions, strings(&["Loading..."]));
    assert_eq!(state.selected_electrs, "Loading...");
    assert_eq!(state.progress, 0);
    assert!(!state.is_busy);
    assert_eq!(state.modal, None);
    assert_eq!(state.log_buffer, "");
}

#[test]
fn messages_update_the_state() {
    let mut state = UiState::new();
    state.is_busy = true;
    state.apply(&AppMessage::Log("hello\n".to_string()));
    state.apply(&AppMessage::Log("world".to_string()));
    assert_eq!(state.log_buffer, "hello\nworld");
    state.apply(&AppMessage::Progress(45));
    assert_eq!(state.progress, 45);
    state.apply(&AppMessage::Progress(250));
    assert_eq!(state.progress, 100);
    state.apply(&AppMessage::BitcoinVersionsLoaded(strings(&["v27.0", "v26.1"])));
    assert_eq!(state.selected_bitcoin, "v27.0");
    assert_eq!(state.bitcoin_versions, strings(&["v27.0", "v26.1"]));
    state.apply(&AppMessage::ElectrsVersionsLoaded(Vec::new()));
    assert_eq!(state.selected_electrs, "Loading...");
    assert_eq!(state.electrs_versions, Vec::<String>::new());
    state.apply(&AppMessage::ShowDialog {
        title: "Error".to_string(),
        message: "boom".to_string(),
        is_error: true,
    });
    assert_eq!(
        state.modal,
        Some(Modal::Alert { title: "Error".to_string(), message: "boom".to_string(), is_error: true })
    );
    state.apply(&AppMessage::TaskDone);
    assert!(!state.is_busy);
    assert_eq!(state.progress, 0);
    assert_eq!(state.log_buffer, "hello\nworld");
}

#[test]
fn confirmation_waits_for_a_free_screen() {
    let mut state = UiState::new();
    let question = ConfirmRequest { title: "Install?".to_string(), message: "3 missing".to_string() };
    state.apply(&AppMessage::ShowDialog {
        title: "Notice".to_string(),
        message: "m".to_string(),
        is_error: false,
    });
    let before = state.clone();
    assert!(!state.offer_confirmation(&question));
    assert_eq!(state, before);
    state.dismiss();
    assert_eq!(state.modal, None);
    assert!(state.offer_confirmation(&question));
    assert_eq!(
        state.modal,
        Some(Modal::Confirm { title: "Install?".to_string(), message: "3 missing".to_string() })
    );
}
