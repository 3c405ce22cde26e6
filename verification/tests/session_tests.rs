use console_core::config::ConsoleConfiguration;
use console_core::events::PrintConsoleLine;
use console_core::session::{
    clear_scrollback, history_down, history_up, receive_console_line, submit_line, ConsoleState,
};

fn submit(state: &mut ConsoleState, config: &ConsoleConfiguration, line: &str) {
    state.buf = line.to_owned();
    submit_line(state, config);
}

#[test]
fn default_session_state() {
    let state = ConsoleState::default();
    assert_eq!(state.buf, "");
    assert!(state.scrollback.is_empty());
    assert_eq!(state.history.len(), 1);
    assert_eq!(state.history[0], "");
    assert_eq!(state.history_index, 0);
}

#[test]
fn whitespace_only_line_appends_one_blank_line() {
    let config = ConsoleConfiguration::default();
    let mut state = ConsoleState::default();
    state.buf = "   \t ".to_owned();
    let entered = submit_line(&mut state, &config);
    assert!(entered.is_none());
    assert_eq!(state.scrollback, vec![String::new()]);
    assert_eq!(state.history.len(), 1);
    assert_eq!(state.buf, "   \t ");
}

#[test]
fn empty_line_appends_one_blank_line() {
    let config = ConsoleConfiguration::default();
    let mut state = ConsoleState::default();
    let entered = submit_line(&mut state, &config);
    assert!(entered.is_none());
    assert_eq!(state.scrollback, vec![String::new()]);
}

#[test]
fn history_keeps_newest_first_and_evicts_oldest() {
    let mut config = ConsoleConfiguration::default();
    config.history_size = 2;
    let mut state = ConsoleState::default();
    submit(&mut state, &config, "a");
    submit(&mut state, &config, "b");
    submit(&mut state, &config, "c");
    let entries: Vec<&String> = state.history.iter().skip(1).collect();
    assert_eq!(entries, vec!["c", "b"]);
    assert!(state.history.len() <= config.history_size + 1);
}

#[test]
fn history_length_never_exceeds_capacity() {
    let mut config = ConsoleConfiguration::default();
    config.history_size = 3;
    let mut state = ConsoleState::default();
    for i in 0..10 {
        submit(&mut state, &config, &format!("line{i}"));
        assert!(state.history.len() <= config.history_size + 1);
    }
    let entries: Vec<&String> = state.history.iter().skip(1).collect();
    assert_eq!(entries, vec!["line9", "line8", "line7"]);
}

#[test]
fn navigate_up_preserves_draft_in_scratch_slot() {
    let config = ConsoleConfiguration::default();
    let mut state = ConsoleState::default();
    submit(&mut state, &config, "first");
    state.buf = "draft".to_owned();
    let moved = history_up(&mut state);
    assert!(moved);
    assert_eq!(state.buf, "first");
    assert_eq!(state.history[0], "draft");
    let moved = history_down(&mut state);
    assert!(moved);
    assert_eq!(state.history_index, 0);
    assert_eq!(state.buf, "draft");
}

#[test]
fn navigate_down_at_scratch_slot_is_noop() {
    let config = ConsoleConfiguration::default();
    let mut state = ConsoleState::default();
    submit(&mut state, &config, "first");
    state.buf = "draft".to_owned();
    let moved = history_down(&mut state);
    assert!(!moved);
    assert_eq!(state.buf, "draft");
    assert_eq!(state.history_index, 0);
}

#[test]
fn navigate_up_at_oldest_entry_is_noop() {
    let config = ConsoleConfiguration::default();
    let mut state = ConsoleState::default();
    submit(&mut state, &config, "first");
    submit(&mut state, &config, "second");
    assert!(history_up(&mut state));
    assert!(history_up(&mut state));
    assert_eq!(state.history_index, state.history.len() - 1);
    let before = state.buf.clone();
    let moved = history_up(&mut state);
    assert!(!moved);
    assert_eq!(state.buf, before);
    assert_eq!(state.history_index, state.history.len() - 1);
}

#[test]
fn navigate_up_with_blank_draft_keeps_scratch_empty() {
    let config = ConsoleConfiguration::default();
    let mut state = ConsoleState::default();
    submit(&mut state, &config, "first");
    state.buf = "  ".to_owned();
    assert!(history_up(&mut state));
    assert_eq!(state.buf, "first");
    assert_eq!(state.history[0], "");
}

#[test]
fn received_lines_extend_scrollback_in_order() {
    let mut state = ConsoleState::default();
    let events = vec![
        PrintConsoleLine::new("one".to_owned()),
        PrintConsoleLine::new("two".to_owned()),
    ];
    receive_console_line(&mut state, &events);
    assert_eq!(state.scrollback, vec!["one", "two"]);
    receive_console_line(&mut state, &events);
    assert_eq!(state.scrollback, vec!["one", "two", "one", "two"]);
}

#[test]
fn clear_empties_scrollback_and_nothing_else() {
    let config = ConsoleConfiguration::default();
    let mut state = ConsoleState::default();
    submit(&mut state, &config, "first");
    assert!(!state.scrollback.is_empty());
    clear_scrollback(&mut state);
    assert!(state.scrollback.is_empty());
    let entries: Vec<&String> = state.history.iter().skip(1).collect();
    assert_eq!(entries, vec!["first"]);
}
