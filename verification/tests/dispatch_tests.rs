use console_core::binding::bind_command;
use console_core::events::ConsoleCommandEntered;
use console_core::config::ConsoleConfiguration;
use console_core::registry::{CommandRegistry, CommandSpec};
use console_core::session::{receive_console_line, submit_line, ConsoleState};

fn log_parser() -> clap::Command {
    clap::Command::new("log")
        .arg(clap::Arg::new("msg").required(true))
        .arg(clap::Arg::new("num").required(false))
}

fn registered_config() -> ConsoleConfiguration {
    let mut config = ConsoleConfiguration::default();
    config.register_command(
        "log".to_owned(),
        log_parser(),
        "Prints given arguments to the console".to_owned(),
    );
    config
}

#[test]
fn lookup_after_register_returns_that_spec() {
    let mut registry = CommandRegistry::new();
    let overwrote = registry.register(
        "log".to_owned(),
        CommandSpec { parser: log_parser(), help: "first help".to_owned() },
    );
    assert!(!overwrote);
    assert_eq!(registry.lookup("log").unwrap().help, "first help");

    let overwrote = registry.register(
        "log".to_owned(),
        CommandSpec { parser: log_parser(), help: "second help".to_owned() },
    );
    assert!(overwrote);
    assert_eq!(registry.lookup("log").unwrap().help, "second help");
    assert_eq!(registry.len(), 1);
    assert!(registry.lookup("other").is_none());
}

#[test]
fn list_names_is_sorted() {
    let mut registry = CommandRegistry::new();
    for name in ["beta", "alpha", "gamma"] {
        registry.register(
            name.to_owned(),
            CommandSpec { parser: clap::Command::new(name), help: String::new() },
        );
    }
    assert_eq!(registry.list_names(), vec!["alpha", "beta", "gamma"]);
}

#[test]
fn submitted_command_is_entered_and_echoed() {
    let config = registered_config();
    let mut state = ConsoleState::default();
    state.buf = "log hello 2".to_owned();
    let entered = submit_line(&mut state, &config).expect("registered command should be entered");
    assert_eq!(entered.command_name, "log");
    assert_eq!(entered.args, vec!["hello".to_owned(), "2".to_owned()]);
    assert_eq!(state.scrollback, vec!["> log hello 2"]);
    assert_eq!(state.buf, "");
    assert_eq!(state.history[1], "log hello 2");
}

#[test]
fn handler_replies_reach_scrollback_in_order() {
    let config = registered_config();
    let mut state = ConsoleState::default();
    state.buf = "log hello 2".to_owned();
    let entered = submit_line(&mut state, &config).expect("registered command should be entered");

    let events = vec![entered];
    let spec = config.commands.lookup("log").expect("log is registered");
    let mut cmd = bind_command(&events, "log", &spec.parser);
    let taken = cmd.take().expect("a matching intent was broadcast");
    let matches = taken.expect("arguments should parse");
    let msg = matches.get_one::<String>("msg").expect("msg is required").clone();
    let num: usize = matches
        .get_one::<String>("num")
        .map(|n| n.parse().expect("num should be a number"))
        .unwrap_or(1);
    for _ in 0..num {
        cmd.reply(msg.clone());
    }
    cmd.ok();
    receive_console_line(&mut state, &cmd.console_line);
    assert_eq!(state.scrollback, vec!["> log hello 2", "hello", "hello", "[ok]"]);
}

#[test]
fn unknown_command_appends_diagnostic_and_enters_nothing() {
    let config = registered_config();
    let mut state = ConsoleState::default();
    state.buf = "unknown_cmd x".to_owned();
    let entered = submit_line(&mut state, &config);
    assert!(entered.is_none());
    assert_eq!(state.scrollback, vec!["> unknown_cmd x", "error: Invalid command"]);

    let no_events: Vec<ConsoleCommandEntered> = Vec::new();
    let mut cmd = bind_command(&no_events, "log", &log_parser());
    assert!(cmd.take().is_none());
    assert!(cmd.console_line.is_empty());
}

#[test]
fn quoted_arguments_are_grouped() {
    let config = registered_config();
    let mut state = ConsoleState::default();
    state.buf = "log \"a b\" c".to_owned();
    let entered = submit_line(&mut state, &config).expect("registered command should be entered");
    assert_eq!(entered.args, vec!["a b".to_owned(), "c".to_owned()]);
}

#[test]
fn take_yields_the_outcome_only_once() {
    let config = registered_config();
    let mut state = ConsoleState::default();
    state.buf = "log hi".to_owned();
    let entered = submit_line(&mut state, &config).expect("registered command should be entered");
    let events = vec![entered];
    let spec = config.commands.lookup("log").expect("log is registered");
    let mut cmd = bind_command(&events, "log", &spec.parser);
    assert!(cmd.take().is_some());
    assert!(cmd.take().is_none());
}

#[test]
fn handlers_ignore_intents_for_other_names() {
    let config = registered_config();
    let mut state = ConsoleState::default();
    state.buf = "log hi".to_owned();
    let entered = submit_line(&mut state, &config).expect("registered command should be entered");
    let events = vec![entered];
    let cmd = bind_command(&events, "other", &clap::Command::new("other"));
    assert!(cmd.command.is_none());
}

#[test]
fn parse_failure_queues_rendered_diagnostic() {
    let config = registered_config();
    let mut state = ConsoleState::default();
    state.buf = "log".to_owned();
    let entered = submit_line(&mut state, &config).expect("entered even with bad arguments");

    let events = vec![entered];
    let spec = config.commands.lookup("log").expect("log is registered");
    let mut cmd = bind_command(&events, "log", &spec.parser);
    let taken = cmd.take().expect("a matching intent was broadcast");
    let failure = taken.err().expect("missing required argument should fail");
    assert!(!failure.rendered.is_empty());
    assert_eq!(cmd.console_line.len(), 1);
    assert_eq!(cmd.console_line[0].line, failure.rendered);

    cmd.failed();
    receive_console_line(&mut state, &cmd.console_line);
    assert_eq!(state.scrollback.len(), 3);
    assert_eq!(state.scrollback[0], "> log");
    assert_eq!(state.scrollback[1], failure.rendered);
    assert_eq!(state.scrollback[2], "[failed]");
}

#[test]
fn reply_markers_compose() {
    let no_events: Vec<ConsoleCommandEntered> = Vec::new();
    let mut cmd = bind_command(&no_events, "log", &log_parser());
    cmd.reply_ok("done".to_owned());
    cmd.reply_failed("broken".to_owned());
    let lines: Vec<&String> = cmd.console_line.iter().map(|e| &e.line).collect();
    assert_eq!(lines, vec!["done", "[ok]", "broken", "[failed]"]);
}
