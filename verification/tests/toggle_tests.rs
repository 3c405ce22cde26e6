use console_core::config::{ConsoleConfiguration, DEFAULT_TOGGLE_KEY};
use console_core::toggle::{
    apply_toggle, console_key_pressed, ButtonState, ConsoleOpen, KeyboardInput, ToggleConsoleKey,
};

#[test]
fn test_console_key_pressed_scan_code() {
    let input = KeyboardInput {
        scan_code: 41,
        key_code: None,
        state: ButtonState::Pressed,
    };

    let config = vec![ToggleConsoleKey::ScanCode(41)];

    let result = console_key_pressed(&input, &config);
    assert!(result);
}

#[test]
fn test_console_wrong_key_pressed_scan_code() {
    let input = KeyboardInput {
        scan_code: 42,
        key_code: None,
        state: ButtonState::Pressed,
    };

    let config = vec![ToggleConsoleKey::ScanCode(41)];

    let result = console_key_pressed(&input, &config);
    assert!(!result);
}

#[test]
fn test_console_key_pressed_key_code() {
    let input = KeyboardInput {
        scan_code: 0,
        key_code: Some(DEFAULT_TOGGLE_KEY),
        state: ButtonState::Pressed,
    };

    let config = vec![ToggleConsoleKey::KeyCode(DEFAULT_TOGGLE_KEY)];

    let result = console_key_pressed(&input, &config);
    assert!(result);
}

#[test]
fn test_console_wrong_key_pressed_key_code() {
    let input = KeyboardInput {
        scan_code: 0,
        key_code: Some(30),
        state: ButtonState::Pressed,
    };

    let config = vec![ToggleConsoleKey::KeyCode(DEFAULT_TOGGLE_KEY)];

    let result = console_key_pressed(&input, &config);
    assert!(!result);
}

#[test]
fn test_console_key_right_key_but_not_pressed() {
    let input = KeyboardInput {
        scan_code: 0,
        key_code: Some(DEFAULT_TOGGLE_KEY),
        state: ButtonState::Released,
    };

    let config = vec![ToggleConsoleKey::KeyCode(DEFAULT_TOGGLE_KEY)];

    let result = console_key_pressed(&input, &config);
    assert!(!result);
}

#[test]
fn toggle_opens_closed_console_when_unfocused() {
    let mut open = ConsoleOpen::default();
    assert!(!open.open);
    apply_toggle(&mut open, true, false);
    assert!(open.open);
}

#[test]
fn toggle_closes_open_console_even_when_focused() {
    let mut open = ConsoleOpen { open: true };
    apply_toggle(&mut open, true, true);
    assert!(!open.open);
}

#[test]
fn toggle_does_not_steal_focus_when_closed() {
    let mut open = ConsoleOpen { open: false };
    apply_toggle(&mut open, true, true);
    assert!(!open.open);
}

#[test]
fn no_trigger_means_no_toggle() {
    let mut open = ConsoleOpen { open: true };
    apply_toggle(&mut open, false, false);
    assert!(open.open);
}

#[test]
fn default_configuration_values() {
    let config = ConsoleConfiguration::default();
    assert_eq!(config.history_size, 50);
    assert_eq!(config.symbol, "> ");
    assert_eq!(config.keys.len(), 1);
    assert!(matches!(config.keys[0], ToggleConsoleKey::KeyCode(DEFAULT_TOGGLE_KEY)));
    assert_eq!(config.commands.len(), 0);
}
