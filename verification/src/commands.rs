//! Which commands are logged when they are called and when they return.

use crate::model::{clone_texts, opt_text};
use crate::text::{holds_text, push_str, texts, to_chars, to_text};
use vstd::prelude::*;

verus! {

/// The commands that are logged; where the filter names none, every command is logged.
#[derive(Debug)]
pub struct CommandLogFilter {
    pub commands: Vec<String>,
}

impl CommandLogFilter {
    /// A filter that names no command, so that every command is logged.
    pub fn new() -> (f: Self)
        ensures
            f.commands@.len() == 0,
    {
        CommandLogFilter { commands: Vec::new() }
    }
}

/// Whether a command named `name` is logged under a filter that names `commands`.
pub open spec fn is_logged(commands: Seq<Seq<char>>, name: Seq<char>) -> bool {
    commands.len() == 0 || commands.contains(name)
}

/// The line that is logged when the command `name` is called with `args`.
pub open spec fn call_line(name: Seq<char>, args: Seq<char>) -> Seq<char> {
    "Command '"@ + name + "' called with args: "@ + args
}

/// The line that is logged when the command `name` returns `result`.
pub open spec fn result_line(name: Seq<char>, result: Seq<char>) -> Seq<char> {
    "Command '"@ + name + "' returned: "@ + result
}

/// Names the commands that are logged from now on, in place of those named before;
/// returns true.
pub fn set_command_logging_filter(filter: &mut CommandLogFilter, commands: Vec<String>) -> (r:
    bool)
    ensures
        r,
        final(filter).commands == commands,
{
    filter.commands = commands;
    true
}

/// The commands that the filter names.
pub fn get_command_logging_filter(filter: &CommandLogFilter) -> (r: Vec<String>)
    ensures
        texts(r@) == texts(filter.commands@),
{
    clone_texts(&filter.commands)
}

/// Whether the command named `name` is logged.
pub fn should_log_command(filter: &CommandLogFilter, name: &str) -> (r: bool)
    ensures
        r == is_logged(texts(filter.commands@), name@),
{
    filter.commands.len() == 0 || holds_text(&filter.commands, name)
}

/// The line to log when the command `name` is called with `args`, if it is logged.
pub fn log_command(filter: &CommandLogFilter, name: &str, args: &str) -> (r: Option<String>)
    ensures
        opt_text(r) == if is_logged(texts(filter.commands@), name@) {
            Some(call_line(name@, args@))
        } else {
            None
        },
{
    if should_log_command(filter, name) {
        let mut line = to_chars("Command '");
        push_str(&mut line, name);
        push_str(&mut line, "' called with args: ");
        push_str(&mut line, args);
        Some(to_text(line.as_slice()))
    } else {
        None
    }
}

/// The line to log when the command `name` returns `result`, if it is logged.
pub fn log_result(filter: &CommandLogFilter, name: &str, result: &str) -> (r: Option<String>)
    ensures
        opt_text(r) == if is_logged(texts(filter.commands@), name@) {
            Some(result_line(name@, result@))
        } else {
            None
        },
{
    if should_log_command(filter, name) {
        let mut line = to_chars("Command '");
        push_str(&mut line, name);
        push_str(&mut line, "' returned: ");
        push_str(&mut line, result);
        Some(to_text(line.as_slice()))
    } else {
        None
    }
}

} // verus!
