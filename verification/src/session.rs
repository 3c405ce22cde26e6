//! Session state: the edit buffer, the append-only scrollback log, and the
//! history ring with its scratch slot, together with the dispatch step that
//! turns a submitted line into a command intent, and the navigation steps
//! that walk the history.

use std::collections::VecDeque;

use vstd::prelude::*;

use crate::config::ConsoleConfiguration;
use crate::events::{ConsoleCommandEntered, PrintConsoleLine};
use crate::text::{
    blank, is_blank, lemma_str_seq_insert, lemma_str_seq_push, lemma_str_seq_remove,
    lemma_str_seq_subrange, lemma_str_seq_update, str_seq,
};
use crate::tokenize::{shell_tokens, tokenize};

verus! {

/// The diagnostic queued when a submitted line names no registered command.
pub open spec fn invalid_command_msg() -> Seq<char> {
    "error: Invalid command"@
}

/// What one submission does to the history ring: the raw line goes in right
/// after the scratch slot, and when the ring would then exceed its capacity
/// (the configured size plus the scratch slot) the oldest entry is dropped.
pub open spec fn push_history(h: Seq<Seq<char>>, line: Seq<char>, cap: nat) -> Seq<Seq<char>> {
    let h2 = h.insert(1, line);
    if h2.len() > cap + 1 {
        h2.drop_last()
    } else {
        h2
    }
}

/// One navigate-up step on (history, cursor, edit buffer): at the top of the
/// history, or with nothing beyond the scratch slot, nothing moves;
/// otherwise, when leaving the scratch slot with a non-blank edit in
/// progress, that edit is first snapshotted into the scratch slot, and then
/// the cursor moves up and that slot's text becomes the edit buffer.
pub open spec fn nav_up(h: Seq<Seq<char>>, idx: int, buf: Seq<char>) -> (Seq<Seq<char>>, int, Seq<char>) {
    if h.len() > 1 && idx < h.len() - 1 {
        let h2 = if idx == 0 && !blank(buf) {
            h.update(0, buf)
        } else {
            h
        };
        (h2, idx + 1, h2[idx + 1])
    } else {
        (h, idx, buf)
    }
}

/// One navigate-down step on (history, cursor, edit buffer): at the scratch
/// slot nothing moves; otherwise the cursor moves down and that slot's text
/// becomes the edit buffer.
pub open spec fn nav_down(h: Seq<Seq<char>>, idx: int, buf: Seq<char>) -> (Seq<Seq<char>>, int, Seq<char>) {
    if idx > 0 {
        (h, idx - 1, h[idx - 1])
    } else {
        (h, idx, buf)
    }
}

/// The console session: edit buffer, scrollback, and history ring. Slot 0 of
/// the history is a scratch slot holding the in-progress edit while older
/// entries are being browsed.
pub struct ConsoleState {
    /// The in-progress edit buffer.
    pub buf: String,
    /// The append-only scrollback log, oldest first.
    pub scrollback: Vec<String>,
    /// The history ring: scratch slot first, then submitted lines, newest
    /// first.
    pub history: VecDeque<String>,
    /// Which history slot the user is looking at; 0 is the scratch slot.
    pub history_index: usize,
}

impl ConsoleState {
    /// The scrollback lines, as character sequences.
    pub open spec fn scroll(&self) -> Seq<Seq<char>> {
        str_seq(self.scrollback@)
    }

    /// The history slots, as character sequences.
    pub open spec fn hist(&self) -> Seq<Seq<char>> {
        str_seq(self.history@)
    }

    /// Well-formed: the scratch slot always exists and the cursor points at
    /// a slot.
    pub open spec fn wf(&self) -> bool {
        1 <= self.history@.len() && self.history_index < self.history@.len()
    }
}

impl Default for ConsoleState {
    /// An empty session: empty edit buffer and scrollback, a history ring
    /// holding only the empty scratch slot, and the cursor on that slot.
    fn default() -> (r: Self)
        ensures
            r.wf(),
            r.buf@ == Seq::<char>::empty(),
            r.scroll() == Seq::<Seq<char>>::empty(),
            r.hist() == seq![Seq::<char>::empty()],
            r.history_index == 0,
    {
        let mut history: VecDeque<String> = VecDeque::new();
        let scratch = String::new();
        history.push_back(scratch);
        proof {
            assert(history@ =~= seq![scratch]);
            assert(str_seq(history@) =~= seq![Seq::<char>::empty()]);
            assert(str_seq(Seq::<String>::empty()) =~= Seq::<Seq<char>>::empty());
        }
        ConsoleState {
            buf: String::new(),
            scrollback: Vec::new(),
            history,
            history_index: 0,
        }
    }
}

/// Appends queued print events to the scrollback, in emission order.
pub fn receive_console_line(console_state: &mut ConsoleState, events: &Vec<PrintConsoleLine>)
    ensures
        final(console_state).scroll() == old(console_state).scroll() + str_seq(
            events@.map_values(|e: PrintConsoleLine| e.line),
        ),
        final(console_state).buf == old(console_state).buf,
        final(console_state).history == old(console_state).history,
        final(console_state).history_index == old(console_state).history_index,
{
    let ghost lines = events@.map_values(|e: PrintConsoleLine| e.line);
    let n = events.len();
    let mut i: usize = 0;
    while i < n
        invariant
            0 <= i <= n,
            n == events@.len(),
            lines == events@.map_values(|e: PrintConsoleLine| e.line),
            console_state.scroll() == old(console_state).scroll() + str_seq(
                lines.subrange(0, i as int),
            ),
            console_state.buf == old(console_state).buf,
            console_state.history == old(console_state).history,
            console_state.history_index == old(console_state).history_index,
        decreases n - i,
    {
        let ghost prev = console_state.scrollback@;
        console_state.scrollback.push(events[i].line.clone());
        proof {
            lemma_str_seq_push(prev, events@[i as int].line);
            assert(lines[i as int] == events@[i as int].line);
            assert(str_seq(prev).push(events@[i as int].line@) =~= old(console_state).scroll()
                + str_seq(lines.subrange(0, i + 1))) by {
                lemma_str_seq_subrange(lines, 0, i as int);
                lemma_str_seq_subrange(lines, 0, i + 1);
            }
        }
        i += 1;
    }
    proof {
        assert(lines.subrange(0, n as int) =~= lines);
    }
}

/// Empties the scrollback immediately; nothing else changes.
pub fn clear_scrollback(console_state: &mut ConsoleState)
    ensures
        final(console_state).scroll() == Seq::<Seq<char>>::empty(),
        final(console_state).buf == old(console_state).buf,
        final(console_state).history == old(console_state).history,
        final(console_state).history_index == old(console_state).history_index,
{
    console_state.scrollback.clear();
    proof {
        assert(str_seq(Seq::<String>::empty()) =~= Seq::<Seq<char>>::empty());
    }
}

/// Submits the edit buffer as one raw line. A blank line only echoes a blank
/// scrollback line. Anything else is echoed with the prompt symbol, recorded
/// in the history ring, and tokenized: the first token is resolved against
/// the registry, yielding either a command intent for the handlers or the
/// invalid-command diagnostic in the scrollback. The edit buffer is cleared.
pub fn submit_line(state: &mut ConsoleState, config: &ConsoleConfiguration) -> (r: Option<
    ConsoleCommandEntered,
>)
    requires
        old(state).wf(),
        config.history_size < usize::MAX,
    ensures
        final(state).wf(),
        final(state).history_index == old(state).history_index,
        old(state).history@.len() <= config.history_size + 1 ==> final(state).history@.len()
            <= config.history_size + 1,
        blank(old(state).buf@) ==> {
            &&& r is None
            &&& final(state).scroll() == old(state).scroll().push(Seq::<char>::empty())
            &&& final(state).hist() == old(state).hist()
            &&& final(state).buf == old(state).buf
        },
        !blank(old(state).buf@) ==> {
            let line = old(state).buf@;
            let toks = shell_tokens(line);
            let echo = config.symbol@ + line;
            &&& final(state).hist() == push_history(
                old(state).hist(),
                line,
                config.history_size as nat,
            )
            &&& final(state).buf@ == Seq::<char>::empty()
            &&& (if toks.len() > 0 && !config.commands.contains_name(toks[0]) {
                final(state).scroll() == old(state).scroll().push(echo).push(
                    invalid_command_msg(),
                )
            } else {
                final(state).scroll() == old(state).scroll().push(echo)
            })
            &&& (r is Some <==> toks.len() > 0 && config.commands.contains_name(toks[0]))
            &&& (r matches Some(e) ==> e.command_name@ == toks[0] && str_seq(e.args@)
                == toks.drop_first())
        },
{
    if is_blank(state.buf.as_str()) {
        let ghost prev = state.scrollback@;
        let empty = String::new();
        state.scrollback.push(empty);
        proof {
            lemma_str_seq_push(prev, empty);
        }
        return None;
    }
    let line = state.buf.clone();
    let mut echo = config.symbol.clone();
    echo.append(line.as_str());
    let ghost s0 = state.scrollback@;
    state.scrollback.push(echo);
    proof {
        lemma_str_seq_push(s0, echo);
    }
    let ghost h0 = state.history@;
    state.history.insert(1, line.clone());
    proof {
        lemma_str_seq_insert(h0, 1, line);
    }
    if state.history.len() > config.history_size + 1 {
        let ghost h1 = state.history@;
        state.history.pop_back();
        proof {
            lemma_str_seq_subrange(h1, 0, h1.len() - 1);
            assert(str_seq(h1).subrange(0, h1.len() - 1) =~= str_seq(h1).drop_last());
        }
    }
    proof {
        assert(state.hist() == push_history(
            old(state).hist(),
            old(state).buf@,
            config.history_size as nat,
        ));
        if old(state).history@.len() <= config.history_size + 1 {
            lemma_history_capacity(
                old(state).hist(),
                old(state).buf@,
                config.history_size as nat,
            );
        }
    }
    let mut toks = tokenize(line.as_str());
    let mut result: Option<ConsoleCommandEntered> = None;
    if toks.len() > 0 {
        let ghost t0 = toks@;
        let name = toks.remove(0);
        proof {
            lemma_str_seq_remove(t0, 0);
            assert(str_seq(t0)[0] == t0[0]@);
            assert(str_seq(t0).remove(0) =~= str_seq(t0).drop_first());
        }
        if config.commands.contains(name.as_str()) {
            result = Some(ConsoleCommandEntered { command_name: name, args: toks });
        } else {
            let ghost s1 = state.scrollback@;
            let msg = "error: Invalid command".to_owned();
            state.scrollback.push(msg);
            proof {
                lemma_str_seq_push(s1, msg);
            }
        }
    }
    state.buf = String::new();
    result
}

/// Navigates one step up (older) through the history, loading the reached
/// slot into the edit buffer; a no-op at the oldest entry or with an empty
/// ring. Leaving the scratch slot with a non-blank edit snapshots that edit
/// into slot 0 first, so navigating back down restores it. Returns whether
/// anything moved, so the host can reposition its edit cursor.
pub fn history_up(state: &mut ConsoleState) -> (moved: bool)
    requires
        old(state).wf(),
    ensures
        final(state).wf(),
        final(state).scrollback == old(state).scrollback,
        (final(state).hist(), final(state).history_index as int, final(state).buf@) == nav_up(
            old(state).hist(),
            old(state).history_index as int,
            old(state).buf@,
        ),
        moved == (old(state).history@.len() > 1 && old(state).history_index
            < old(state).history@.len() - 1),
{
    let len = state.history.len();
    if !(len > 1 && state.history_index < len - 1) {
        return false;
    }
    if state.history_index == 0 && !is_blank(state.buf.as_str()) {
        let snapshot = state.buf.clone();
        let ghost h0 = state.history@;
        state.history.pop_front();
        let ghost h1 = state.history@;
        state.history.push_front(snapshot);
        proof {
            assert(state.history@ =~= h0.update(0, snapshot));
            lemma_str_seq_update(h0, 0, snapshot);
        }
    }
    state.history_index = state.history_index + 1;
    let item = index_history(state, state.history_index);
    state.buf = item;
    true
}

/// Navigates one step down (newer) through the history, loading the reached
/// slot into the edit buffer; a no-op at the scratch slot. Returns whether
/// anything moved.
pub fn history_down(state: &mut ConsoleState) -> (moved: bool)
    requires
        old(state).wf(),
    ensures
        final(state).wf(),
        final(state).scrollback == old(state).scrollback,
        final(state).hist() == old(state).hist(),
        (final(state).hist(), final(state).history_index as int, final(state).buf@) == nav_down(
            old(state).hist(),
            old(state).history_index as int,
            old(state).buf@,
        ),
        moved == (old(state).history_index > 0),
{
    if state.history_index == 0 {
        return false;
    }
    state.history_index = state.history_index - 1;
    let item = index_history(state, state.history_index);
    state.buf = item;
    true
}

/// Reads one history slot into a fresh string.
fn index_history(state: &ConsoleState, i: usize) -> (r: String)
    requires
        i < state.history@.len(),
    ensures
        r@ == state.hist()[i as int],
{
    let r = state.history[i].clone();
    proof {
        assert(state.hist()[i as int] == state.history@[i as int]@);
    }
    r
}

/// The history ring never outgrows its capacity: when it is full (the
/// configured size plus the scratch slot), a submission drops the oldest
/// entry, and the length stays put.
pub proof fn lemma_history_capacity(h: Seq<Seq<char>>, line: Seq<char>, cap: nat)
    requires
        1 <= h.len() <= cap + 1,
    ensures
        push_history(h, line, cap).len() <= cap + 1,
        h.len() == cap + 1 ==> push_history(h, line, cap) == h.insert(1, line).drop_last(),
        h.len() < cap + 1 ==> push_history(h, line, cap) == h.insert(1, line),
{
}

/// Navigating up from the scratch slot with a non-blank edit, then back
/// down, restores that edit: the snapshot in slot 0 survives the round
/// trip.
pub proof fn lemma_history_up_down_restores_edit(h: Seq<Seq<char>>, buf: Seq<char>)
    requires
        h.len() > 1,
        !blank(buf),
    ensures
        ({
            let up = nav_up(h, 0, buf);
            let down = nav_down(up.0, up.1, up.2);
            down.1 == 0 && down.2 == buf
        }),
{
}

/// Navigate-down at the scratch slot changes nothing.
pub proof fn lemma_nav_down_at_zero_noop(h: Seq<Seq<char>>, buf: Seq<char>)
    ensures
        nav_down(h, 0, buf) == (h, 0int, buf),
{
}

/// Navigate-up at the oldest entry changes nothing.
pub proof fn lemma_nav_up_at_top_noop(h: Seq<Seq<char>>, buf: Seq<char>)
    requires
        h.len() >= 1,
    ensures
        nav_up(h, h.len() - 1, buf) == (h, h.len() - 1, buf),
{
}

} // verus!
