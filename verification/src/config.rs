//! Console configuration: the toggle triggers, the registered commands, the
//! history capacity and the prompt symbol. Window geometry is host-side and
//! lives with the rendering, not here.

use vstd::prelude::*;

use crate::parser::no_binary_name;
use crate::registry::{CommandRegistry, CommandSpec};
use crate::toggle::ToggleConsoleKey;

verus! {

/// The default logical key identifier for toggling the console: the grave
/// (backquote) key.
pub const DEFAULT_TOGGLE_KEY: u32 = 41;

/// Console configuration, owned by the host for the session's lifetime.
pub struct ConsoleConfiguration {
    /// Keys that toggle the console open or closed.
    pub keys: Vec<ToggleConsoleKey>,
    /// The registered console commands.
    pub commands: CommandRegistry,
    /// How many submitted lines the history ring retains, besides its
    /// scratch slot.
    pub history_size: usize,
    /// Prefix echoed before each submitted line in the scrollback.
    pub symbol: String,
}

impl Default for ConsoleConfiguration {
    /// One toggle key (the grave key), no commands, fifty lines of history,
    /// and a `"> "` prompt.
    fn default() -> (r: Self)
        ensures
            r.keys@ == seq![ToggleConsoleKey::KeyCode(DEFAULT_TOGGLE_KEY)],
            r.commands.wf(),
            r.commands.entries_view().len() == 0,
            r.history_size == 50,
            r.symbol@ == "> "@,
    {
        let mut keys: Vec<ToggleConsoleKey> = Vec::new();
        keys.push(ToggleConsoleKey::KeyCode(DEFAULT_TOGGLE_KEY));
        proof {
            assert(keys@ =~= seq![ToggleConsoleKey::KeyCode(DEFAULT_TOGGLE_KEY)]);
        }
        ConsoleConfiguration {
            keys,
            commands: CommandRegistry::new(),
            history_size: 50,
            symbol: "> ".to_owned(),
        }
    }
}

impl ConsoleConfiguration {
    /// Registers a command: stores its parser (configured to read the whole
    /// token list as arguments, with no leading program name) and its help
    /// text under the name. An already-registered name is overwritten and
    /// reported, so the caller can log the non-fatal warning.
    pub fn register_command(&mut self, name: String, parser: clap::Command, help: String) -> (overwrote: bool)
        requires
            old(self).commands.wf(),
        ensures
            final(self).commands.wf(),
            overwrote == old(self).commands.contains_name(name@),
            final(self).commands.spec_lookup(name@) matches Some(s) && s.help == help,
            forall|other: Seq<char>|
                other != name@ ==> final(self).commands.spec_lookup(other)
                    == old(self).commands.spec_lookup(other),
            final(self).keys == old(self).keys,
            final(self).history_size == old(self).history_size,
            final(self).symbol == old(self).symbol,
    {
        let parser = no_binary_name(parser);
        self.commands.register(name, CommandSpec { parser, help })
    }
}

} // verus!
