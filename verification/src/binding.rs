//! The command handler binding: each handler sees only the command intents
//! whose name equals its own registered name, parses the argument tokens
//! through its own parser capability exactly once, and queues its replies
//! and status markers as print events instead of touching the scrollback.

use vstd::prelude::*;

use crate::events::{ConsoleCommandEntered, PrintConsoleLine};
use crate::parser::{parse_args, ParseFailure};
use crate::text::str_eq;

verus! {

/// The lines a sequence of print events carries, in order.
pub open spec fn event_lines(v: Seq<PrintConsoleLine>) -> Seq<Seq<char>> {
    v.map_values(|e: PrintConsoleLine| e.line@)
}

/// `event_lines` maps a push to a push.
proof fn lemma_event_lines_push(v: Seq<PrintConsoleLine>, e: PrintConsoleLine)
    ensures
        event_lines(v.push(e)) == event_lines(v).push(e.line@),
{
    assert(event_lines(v.push(e)) =~= event_lines(v).push(e.line@)) by {
        assert forall|k: int| 0 <= k < v.len() + 1 implies event_lines(v.push(e))[k]
            == event_lines(v).push(e.line@)[k] by {
            if k < v.len() {
                assert(v.push(e)[k] == v[k]);
            } else {
                assert(v.push(e)[k] == e);
            }
        }
    }
}

/// Identifies a command implementation: the registered name its users type.
/// Implemented by each command type the host defines.
pub trait NamedCommand {
    /// The unique command identifier (the command's "executable" word).
    fn name() -> &'static str;
}

/// One handler's view of the current pass: the parse outcome of the command
/// intent addressed to it, if any, to be taken at most once, and the print
/// events it queues in reply.
pub struct ConsoleCommand<T> {
    /// The parse outcome of the matching intent: present until taken.
    pub command: Option<Result<T, ParseFailure>>,
    /// The print events queued by the handler, oldest first.
    pub console_line: Vec<PrintConsoleLine>,
}

impl<T> ConsoleCommand<T> {
    /// The queued reply lines, in order.
    pub open spec fn lines(&self) -> Seq<Seq<char>> {
        event_lines(self.console_line@)
    }

    /// A handler view with a given parse outcome and nothing queued yet.
    pub fn new(command: Option<Result<T, ParseFailure>>) -> (r: Self)
        ensures
            r.command == command,
            r.lines() == Seq::<Seq<char>>::empty(),
    {
        let r = ConsoleCommand { command, console_line: Vec::new() };
        proof {
            assert(r.lines() =~= Seq::<Seq<char>>::empty());
        }
        r
    }

    /// Takes the parse outcome. Yields it once: a second take in the same
    /// pass finds nothing.
    pub fn take(&mut self) -> (r: Option<Result<T, ParseFailure>>)
        ensures
            r == old(self).command,
            final(self).command is None,
            final(self).console_line == old(self).console_line,
    {
        self.command.take()
    }

    /// Queues `[ok]`.
    pub fn ok(&mut self)
        ensures
            final(self).command == old(self).command,
            final(self).lines() == old(self).lines().push("[ok]"@),
    {
        let ghost prev = self.console_line@;
        let line = "[ok]".to_owned();
        self.console_line.push(PrintConsoleLine::new(line));
        proof {
            lemma_event_lines_push(prev, PrintConsoleLine { line });
        }
    }

    /// Queues `[failed]`.
    pub fn failed(&mut self)
        ensures
            final(self).command == old(self).command,
            final(self).lines() == old(self).lines().push("[failed]"@),
    {
        let ghost prev = self.console_line@;
        let line = "[failed]".to_owned();
        self.console_line.push(PrintConsoleLine::new(line));
        proof {
            lemma_event_lines_push(prev, PrintConsoleLine { line });
        }
    }

    /// Queues a reply line.
    pub fn reply(&mut self, msg: String)
        ensures
            final(self).command == old(self).command,
            final(self).lines() == old(self).lines().push(msg@),
    {
        let ghost prev = self.console_line@;
        self.console_line.push(PrintConsoleLine::new(msg));
        proof {
            lemma_event_lines_push(prev, PrintConsoleLine { line: msg });
        }
    }

    /// Queues a reply line followed by `[ok]`.
    pub fn reply_ok(&mut self, msg: String)
        ensures
            final(self).command == old(self).command,
            final(self).lines() == old(self).lines().push(msg@).push("[ok]"@),
    {
        self.reply(msg);
        self.ok();
    }

    /// Queues a reply line followed by `[failed]`.
    pub fn reply_failed(&mut self, msg: String)
        ensures
            final(self).command == old(self).command,
            final(self).lines() == old(self).lines().push(msg@).push("[failed]"@),
    {
        self.reply(msg);
        self.failed();
    }
}

/// Builds one handler's view of a pass: scans the broadcast command intents
/// for the first whose name matches this handler's, parses its argument
/// tokens through the handler's parser capability, and on a parse failure
/// queues the rendered diagnostic as a print event. Intents bearing other
/// names are ignored.
pub fn bind_command(
    events: &Vec<ConsoleCommandEntered>,
    name: &str,
    parser: &clap::Command,
) -> (c: ConsoleCommand<clap::ArgMatches>)
    ensures
        (c.command is Some <==> exists|i: int|
            0 <= i < events@.len() && events@[i].command_name@ == name@),
        c.command matches Some(Err(f)) ==> c.lines() == seq![f.rendered@],
        !(c.command matches Some(Err(_))) ==> c.lines() == Seq::<Seq<char>>::empty(),
{
    let n = events.len();
    let mut i: usize = 0;
    while i < n
        invariant
            0 <= i <= n,
            n == events@.len(),
            forall|j: int| 0 <= j < i ==> events@[j].command_name@ != name@,
        decreases n - i,
    {
        if str_eq(events[i].command_name.as_str(), name) {
            match parse_args(parser, &events[i].args) {
                Ok(matches) => {
                    return ConsoleCommand::new(Some(Ok(matches)));
                },
                Err(rendered) => {
                    let mut c = ConsoleCommand::new(Some(Err(ParseFailure {
                        rendered: rendered.clone(),
                    })));
                    let ghost prev = c.console_line@;
                    c.console_line.push(PrintConsoleLine::new(rendered));
                    proof {
                        lemma_event_lines_push(prev, PrintConsoleLine { line: rendered });
                        assert(c.lines() =~= seq![rendered@]);
                    }
                    return c;
                },
            }
        }
        i += 1;
    }
    ConsoleCommand::new(None)
}

} // verus!
