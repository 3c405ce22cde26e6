//! The two transient intents that cross between console components: an
//! accepted command submission, and a line to append to the scrollback.

use vstd::prelude::*;

verus! {

/// A raw console line resolved into a command name and its argument tokens.
/// Emitted once per accepted submission; consumed by the handler whose
/// registered name matches.
pub struct ConsoleCommandEntered {
    /// The registered name the first token resolved to.
    pub command_name: String,
    /// The remaining tokens, in order.
    pub args: Vec<String>,
}

/// A line queued for the console scrollback. All handler output funnels
/// through values of this type; nothing writes to the scrollback directly.
pub struct PrintConsoleLine {
    /// The text of the line.
    pub line: String,
}

impl PrintConsoleLine {
    /// Wraps a line of text for the scrollback queue.
    pub fn new(line: String) -> (r: Self)
        ensures
            r.line == line,
    {
        PrintConsoleLine { line }
    }
}

} // verus!
