//! The toggle detector: decides whether a raw keyboard event matches one of
//! the configured console-toggle triggers, and the policy that turns a match
//! into an open/close transition.

use vstd::prelude::*;

verus! {

/// Whether a key event is a press or a release. Only presses can toggle the
/// console; releases and anything else the host reports are ignored.
#[derive(Clone, Copy, PartialEq, Eq, Structural)]
pub enum ButtonState {
    /// The key went down (or the host reports a repeat as a fresh press).
    Pressed,
    /// The key went up.
    Released,
}

/// A raw keyboard event as the host hands it to the console: an optional
/// logical key identifier, the physical scan code, and the press state.
#[derive(Clone, Copy, PartialEq, Eq, Structural)]
pub struct KeyboardInput {
    /// Physical scan code of the key.
    pub scan_code: u32,
    /// Logical key identifier, when the host could name the key.
    pub key_code: Option<u32>,
    /// Press or release.
    pub state: ButtonState,
}

/// A configured trigger for toggling the console: either a logical key
/// identifier or a raw scan code.
#[derive(Clone, Copy, PartialEq, Eq, Structural)]
pub enum ToggleConsoleKey {
    /// Match on the event's logical key identifier.
    KeyCode(u32),
    /// Match on the event's raw scan code.
    ScanCode(u32),
}

/// Whether one trigger matches one event, by key code or by scan code.
pub open spec fn trigger_matches(input: KeyboardInput, key: ToggleConsoleKey) -> bool {
    match key {
        ToggleConsoleKey::KeyCode(k) => input.key_code == Some(k),
        ToggleConsoleKey::ScanCode(s) => input.scan_code == s,
    }
}

/// A toggle fires exactly when the event is a press and some configured
/// trigger matches it.
pub open spec fn spec_key_pressed(input: KeyboardInput, keys: Seq<ToggleConsoleKey>) -> bool {
    input.state is Pressed && exists|i: int| 0 <= i < keys.len() && trigger_matches(input, keys[i])
}

/// Whether a raw keyboard event should toggle the console: it must be a
/// press, and match one of the configured triggers by key code or scan code.
pub fn console_key_pressed(keyboard_input: &KeyboardInput, configured_keys: &[ToggleConsoleKey]) -> (r: bool)
    ensures
        r == spec_key_pressed(*keyboard_input, configured_keys@),
{
    match keyboard_input.state {
        ButtonState::Released => {
            return false;
        },
        ButtonState::Pressed => {},
    }
    let n = configured_keys.len();
    let mut i: usize = 0;
    while i < n
        invariant
            0 <= i <= n,
            n == configured_keys@.len(),
            keyboard_input.state is Pressed,
            forall|j: int| 0 <= j < i ==> !trigger_matches(*keyboard_input, configured_keys@[j]),
        decreases n - i,
    {
        let hit = match configured_keys[i] {
            ToggleConsoleKey::KeyCode(configured_key_code) => {
                match keyboard_input.key_code {
                    None => false,
                    Some(pressed_key) => configured_key_code == pressed_key,
                }
            },
            ToggleConsoleKey::ScanCode(configured_scan_code) => {
                keyboard_input.scan_code == configured_scan_code
            },
        };
        if hit {
            return true;
        }
        i += 1;
    }
    false
}

/// The console's open/closed flag, queryable by the host.
#[derive(PartialEq, Eq, Structural)]
pub struct ConsoleOpen {
    /// Whether the console is currently open.
    pub open: bool,
}

impl Default for ConsoleOpen {
    /// The console starts closed.
    fn default() -> (r: Self)
        ensures
            !r.open,
    {
        ConsoleOpen { open: false }
    }
}

/// Applies the toggle policy for one pass. A matching press always closes an
/// open console, wherever keyboard focus is; it opens a closed console only
/// when no other host-owned text input claims the keyboard.
pub fn apply_toggle(console_open: &mut ConsoleOpen, pressed: bool, host_wants_keyboard: bool)
    ensures
        final(console_open).open == if pressed && (old(console_open).open || !host_wants_keyboard) {
            !old(console_open).open
        } else {
            old(console_open).open
        },
{
    if pressed && (console_open.open || !host_wants_keyboard) {
        console_open.open = !console_open.open;
    }
}

} // verus!
