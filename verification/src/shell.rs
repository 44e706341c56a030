//! Handing a command line to a shell, and what its end means.

use vstd::prelude::*;
use vstd::string::*;
use crate::arguments::argument_views;

verus! {

/// The shell that runs a command line when no other is named.
pub const DEFAULT_SHELL: &'static str = "sh";

/// The exit status that says that the command line was printed, not run.
pub const PASSTHROUGH_EXIT_CODE: i32 = 125;

/// What is added to a signal's number to make an exit status of it.
pub const SIGNAL_EXIT_BASE: i32 = 128;

/// `text` ends in `suffix`.
pub open spec fn ends_with(text: Seq<char>, suffix: Seq<char>) -> bool {
    suffix.len() <= text.len() && text.subrange(text.len() - suffix.len(), text.len() as int)
        == suffix
}

/// The shells that are asked to run as interactive ones, so that a command
/// behaves as it would when typed: those named like bash, zsh or fish.
pub open spec fn is_interactive_shell(shell: Seq<char>) -> bool {
    ends_with(shell, "bash"@) || ends_with(shell, "zsh"@) || ends_with(shell, "fish"@)
}

/// The arguments that make `shell` run `command_line`.
pub open spec fn shell_arguments_model(shell: Seq<char>, command_line: Seq<char>) -> Seq<
    Seq<char>,
> {
    if is_interactive_shell(shell) {
        seq!["-i"@, "-c"@, command_line]
    } else {
        seq!["-c"@, command_line]
    }
}

/// Whether `text` ends in `suffix`.
pub fn has_suffix(text: &str, suffix: &str) -> (found: bool)
    ensures
        found == ends_with(text@, suffix@),
{
    let length = text.unicode_len();
    let wanted = suffix.unicode_len();
    if length < wanted {
        return false;
    }
    let tail = text.substring_char(length - wanted, length);
    tail.to_owned() == suffix.to_owned()
}

/// Whether `shell` is asked to run as an interactive shell.
pub fn runs_interactive(shell: &str) -> (interactive: bool)
    ensures
        interactive == is_interactive_shell(shell@),
{
    has_suffix(shell, "bash") || has_suffix(shell, "zsh") || has_suffix(shell, "fish")
}

/// The arguments with which `shell` runs `command_line`: `-c` and the line,
/// behind `-i` for a shell that is asked to run as an interactive one.
pub fn shell_arguments(shell: &str, command_line: &str) -> (arguments: Vec<String>)
    ensures
        argument_views(arguments@) == shell_arguments_model(shell@, command_line@),
{
    let mut arguments: Vec<String> = Vec::new();
    if runs_interactive(shell) {
        arguments.push("-i".to_owned());
    }
    arguments.push("-c".to_owned());
    arguments.push(command_line.to_owned());
    assert(argument_views(arguments@) =~= shell_arguments_model(shell@, command_line@));
    arguments
}

/// The exit status to end with after the command ended: its own where it has
/// one, else the number of the signal that ended it, raised by
/// [`SIGNAL_EXIT_BASE`].
pub fn exit_code(code: Option<i32>, signal: Option<i32>) -> (status: i32)
    requires
        code is Some || signal is Some,
        code is None ==> SIGNAL_EXIT_BASE + signal->Some_0 <= i32::MAX,
    ensures
        status == match code {
            Some(own) => own as int,
            None => SIGNAL_EXIT_BASE + signal->Some_0,
        },
{
    match code {
        Some(own) => own,
        None => SIGNAL_EXIT_BASE + signal.unwrap(),
    }
}

} // verus!
