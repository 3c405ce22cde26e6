//! The structured-argument-parser capability: each registered command brings
//! a `clap::Command` that turns its argument tokens into typed matches or a
//! parse error. The parser values are opaque here; the console only carries
//! them, runs them, and routes their diagnostics.

use vstd::prelude::*;

verus! {

#[verifier::external_type_specification]
#[verifier::external_body]
pub struct ExClapCommand(clap::Command);

#[verifier::external_type_specification]
#[verifier::external_body]
pub struct ExClapArgMatches(clap::ArgMatches);

/// A rejected argument list, carried as the parser's rendered diagnostic
/// (usage or help text).
#[derive(Debug)]
pub struct ParseFailure {
    /// The diagnostic text the parser rendered for the failure.
    pub rendered: String,
}

/// Relies on `clap::Command::no_binary_name`: configures the parser to treat
/// the whole token list as arguments, with no leading program name.
#[verifier::external_body]
pub(crate) fn no_binary_name(parser: clap::Command) -> clap::Command {
    parser.no_binary_name(true)
}

/// Relies on `clap::Command::try_get_matches_from` (on a clone of the stored
/// parser): parses the argument tokens against the command's declared
/// arguments, yielding typed matches or a parse error. A failure comes back
/// converted to its `clap::Error::render` diagnostic text.
#[verifier::external_body]
pub(crate) fn parse_args(parser: &clap::Command, args: &Vec<String>) -> Result<clap::ArgMatches, String> {
    parser.clone().try_get_matches_from(args.iter()).map_err(|e| e.render().to_string())
}

} // verus!
