//! The tokenizer: splits a raw input line into shell-like tokens. The
//! splitting itself is done by the `shlex` crate; its result is a function of
//! the line's characters alone and is named `shell_tokens` in contracts.

use vstd::prelude::*;

use crate::text::str_seq;

verus! {

/// The token sequence that shell-like lexing yields for a line: whitespace
/// separates tokens, single and double quotes group whitespace, backslash
/// escapes inside tokens, and malformed quoting is recovered from
/// best-effort. The result depends on the characters of the line alone.
pub uninterp spec fn shell_tokens(line: Seq<char>) -> Seq<Seq<char>>;

/// Relies on `shlex::Shlex`: an iterator over the shell-like tokens of the
/// line, yielding whatever it recovered even when quoting is malformed.
#[verifier::external_body]
pub(crate) fn tokenize(line: &str) -> (r: Vec<String>)
    ensures
        str_seq(r@) == shell_tokens(line@),
{
    shlex::Shlex::new(line).collect()
}

} // verus!
