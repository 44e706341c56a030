//! Telling the flags on a command line from the tokens of the command.
//!
//! An argument that begins with `-` is a flag, wherever it stands; every other
//! argument is a token of the command, in the order given.

use vstd::prelude::*;
use vstd::string::*;
use crate::resolver::token_views;

verus! {

/// What is asked for: the command run, or a listing of what it holds.
#[derive(Clone, Copy, Debug, PartialEq, Eq, Structural)]
pub enum Action {
    Exec,
    Help,
}

/// A command line taken apart.
#[derive(Debug)]
pub struct Invocation<'a> {
    pub action: Action,
    /// Print the command line instead of running it.
    pub passthrough: bool,
    /// The tokens of the command, in the order given.
    pub command: Vec<&'a str>,
}

/// Why a command line cannot be acted on.
#[derive(Debug)]
pub enum ArgumentError {
    /// A flag that is not known; it comes with the error.
    UnknownFlag(String),
    /// No token of a command, and no help asked for.
    NoCommand,
}

/// An [`Invocation`] as contracts see it.
pub struct InvocationModel {
    pub action: Action,
    pub passthrough: bool,
    pub command: Seq<Seq<char>>,
}

/// An [`ArgumentError`] as contracts see it.
pub enum ArgumentErrorModel {
    UnknownFlag(Seq<char>),
    NoCommand,
}

impl<'a> View for Invocation<'a> {
    type V = InvocationModel;

    open spec fn view(&self) -> InvocationModel {
        InvocationModel {
            action: self.action,
            passthrough: self.passthrough,
            command: token_views(self.command@),
        }
    }
}

impl View for ArgumentError {
    type V = ArgumentErrorModel;

    open spec fn view(&self) -> ArgumentErrorModel {
        match self {
            ArgumentError::UnknownFlag(flag) => ArgumentErrorModel::UnknownFlag(flag@),
            ArgumentError::NoCommand => ArgumentErrorModel::NoCommand,
        }
    }
}

/// The arguments as sequences of characters.
pub open spec fn argument_views(arguments: Seq<String>) -> Seq<Seq<char>> {
    Seq::new(arguments.len(), |i: int| arguments[i]@)
}

/// The line that an [`ArgumentError`] is shown as.
pub open spec fn argument_error_message(error: ArgumentErrorModel) -> Seq<char> {
    match error {
        ArgumentErrorModel::UnknownFlag(flag) => "Unknown flag: "@ + flag,
        ArgumentErrorModel::NoCommand => "Error: No command provided"@,
    }
}

impl ArgumentError {
    /// The line that the error is shown as.
    pub fn to_string(&self) -> (text: String)
        ensures
            text@ == argument_error_message(self@),
    {
        match self {
            ArgumentError::UnknownFlag(flag) => {
                let mut text = String::from_str("Unknown flag: ");
                text.append(flag.as_str());
                text
            },
            ArgumentError::NoCommand => String::from_str("Error: No command provided"),
        }
    }
}

/// A flag is an argument that begins with `-`.
pub open spec fn is_flag(argument: Seq<char>) -> bool {
    argument.len() > 0 && argument[0] == '-'
}

/// The two spellings of the flag that asks for help.
pub open spec fn is_help_flag(argument: Seq<char>) -> bool {
    argument == "--help"@ || argument == "-h"@
}

/// The two spellings of the flag that asks for the command line to be printed.
pub open spec fn is_passthrough_flag(argument: Seq<char>) -> bool {
    argument == "--passthrough"@ || argument == "-p"@
}

/// The first flag that is neither of the known ones.
pub open spec fn first_unknown_flag(arguments: Seq<Seq<char>>) -> Option<Seq<char>>
    decreases arguments.len(),
{
    if arguments.len() == 0 {
        None
    } else if is_flag(arguments[0]) && !is_help_flag(arguments[0]) && !is_passthrough_flag(
        arguments[0],
    ) {
        Some(arguments[0])
    } else {
        first_unknown_flag(arguments.drop_first())
    }
}

/// Help is asked for somewhere among the arguments.
pub open spec fn asks_help(arguments: Seq<Seq<char>>) -> bool {
    exists|i: int| 0 <= i < arguments.len() && is_help_flag(#[trigger] arguments[i])
}

/// Printing is asked for somewhere among the arguments.
pub open spec fn asks_passthrough(arguments: Seq<Seq<char>>) -> bool {
    exists|i: int| 0 <= i < arguments.len() && is_passthrough_flag(#[trigger] arguments[i])
}

/// The arguments that are no flags, in the order given.
pub open spec fn command_tokens(arguments: Seq<Seq<char>>) -> Seq<Seq<char>> {
    arguments.filter(|argument: Seq<char>| !is_flag(argument))
}

/// What a command line asks for. An unknown flag is an error before anything
/// else is looked at; a command line without a token asks for nothing unless
/// it asks for help.
pub open spec fn parse_model(arguments: Seq<Seq<char>>) -> Result<
    InvocationModel,
    ArgumentErrorModel,
> {
    match first_unknown_flag(arguments) {
        Some(flag) => Err(ArgumentErrorModel::UnknownFlag(flag)),
        None => if command_tokens(arguments).len() == 0 && !asks_help(arguments) {
            Err(ArgumentErrorModel::NoCommand)
        } else {
            Ok(
                InvocationModel {
                    action: if asks_help(arguments) {
                        Action::Help
                    } else {
                        Action::Exec
                    },
                    passthrough: asks_passthrough(arguments),
                    command: command_tokens(arguments),
                },
            )
        },
    }
}

/// The known flags are flags, and none of them asks for two things.
proof fn lemma_known_flags_are_flags()
    ensures
        forall|argument: Seq<char>| #[trigger]
            is_help_flag(argument) ==> is_flag(argument) && !is_passthrough_flag(argument),
        forall|argument: Seq<char>| #[trigger]
            is_passthrough_flag(argument) ==> is_flag(argument) && !is_help_flag(argument),
{
    reveal_strlit("--help");
    reveal_strlit("-h");
    reveal_strlit("--passthrough");
    reveal_strlit("-p");
    assert("--help"@.len() == 6 && "--passthrough"@.len() == 13);
    assert("-h"@.len() == 2 && "-p"@.len() == 2);
    assert("-h"@[1] == 'h' && "-p"@[1] == 'p');
}

/// What one argument more adds to what the arguments before it ask for.
proof fn lemma_next_argument(all: Seq<Seq<char>>, i: int)
    requires
        0 <= i < all.len(),
    ensures
        first_unknown_flag(all.skip(i)) == if is_flag(all[i]) && !is_help_flag(all[i])
            && !is_passthrough_flag(all[i]) {
            Some(all[i])
        } else {
            first_unknown_flag(all.skip(i + 1))
        },
        asks_help(all.take(i + 1)) == (asks_help(all.take(i)) || is_help_flag(all[i])),
        asks_passthrough(all.take(i + 1)) == (asks_passthrough(all.take(i)) || is_passthrough_flag(
            all[i],
        )),
        command_tokens(all.take(i + 1)) == if is_flag(all[i]) {
            command_tokens(all.take(i))
        } else {
            command_tokens(all.take(i)).push(all[i])
        },
{
    let seen = all.take(i);
    let more = all.take(i + 1);
    assert(all.skip(i)[0] == all[i]);
    assert(all.skip(i).drop_first() =~= all.skip(i + 1));
    assert(more.drop_last() =~= seen);
    assert(more[i] == all[i]);
    assert(command_tokens(more) == if is_flag(all[i]) {
        command_tokens(seen)
    } else {
        command_tokens(seen).push(all[i])
    }) by {
        reveal(Seq::filter);
    }
    if asks_help(seen) {
        let j = choose|j: int| 0 <= j < seen.len() && is_help_flag(seen[j]);
        assert(is_help_flag(more[j]));
    }
    if asks_help(more) && !is_help_flag(all[i]) {
        let j = choose|j: int| 0 <= j < more.len() && is_help_flag(more[j]);
        assert(is_help_flag(seen[j]));
    }
    if asks_passthrough(seen) {
        let j = choose|j: int| 0 <= j < seen.len() && is_passthrough_flag(seen[j]);
        assert(is_passthrough_flag(more[j]));
    }
    if asks_passthrough(more) && !is_passthrough_flag(all[i]) {
        let j = choose|j: int| 0 <= j < more.len() && is_passthrough_flag(more[j]);
        assert(is_passthrough_flag(seen[j]));
    }
}

/// Whether `argument` begins with `-`.
pub fn begins_flag(argument: &str) -> (flag: bool)
    ensures
        flag == is_flag(argument@),
{
    if argument.is_empty() {
        false
    } else {
        argument.get_char(0) == '-'
    }
}

/// Whether `argument` reads as `spelling`.
fn reads_as(argument: &String, spelling: &str) -> (same: bool)
    ensures
        same == (argument@ == spelling@),
{
    *argument == spelling.to_owned()
}

/// Takes the arguments of a command line apart.
pub fn parse_arguments<'a>(arguments: &'a Vec<String>) -> (parsed: Result<
    Invocation<'a>,
    ArgumentError,
>)
    ensures
        match parse_model(argument_views(arguments@)) {
            Ok(invocation) => parsed matches Ok(i) && i@ == invocation,
            Err(error) => parsed matches Err(e) && e@ == error,
        },
{
    let ghost all = argument_views(arguments@);
    let mut help = false;
    let mut passthrough = false;
    let mut command: Vec<&'a str> = Vec::new();
    let mut i: usize = 0;
    proof {
        assert(all.skip(0) =~= all);
        assert(command_tokens(all.take(0)) =~= Seq::<Seq<char>>::empty()) by {
            reveal(Seq::filter);
        }
        assert(token_views(command@) =~= command_tokens(all.take(0)));
    }
    while i < arguments.len()
        invariant
            i <= arguments@.len(),
            all == argument_views(arguments@),
            first_unknown_flag(all) == first_unknown_flag(all.skip(i as int)),
            help == asks_help(all.take(i as int)),
            passthrough == asks_passthrough(all.take(i as int)),
            token_views(command@) == command_tokens(all.take(i as int)),
        decreases arguments@.len() - i,
    {
        let argument = &arguments[i];
        let ghost tokens_before = token_views(command@);
        proof {
            lemma_known_flags_are_flags();
            lemma_next_argument(all, i as int);
        }
        if begins_flag(argument.as_str()) {
            if reads_as(argument, "--help") || reads_as(argument, "-h") {
                help = true;
            } else if reads_as(argument, "--passthrough") || reads_as(argument, "-p") {
                passthrough = true;
            } else {
                return Err(ArgumentError::UnknownFlag(argument.clone()));
            }
        } else {
            command.push(argument.as_str());
            assert(token_views(command@) =~= tokens_before.push(argument@));
        }
        i += 1;
    }
    assert(all.take(i as int) =~= all);
    if command.len() == 0 && !help {
        return Err(ArgumentError::NoCommand);
    }
    let action = if help {
        Action::Help
    } else {
        Action::Exec
    };
    Ok(Invocation { action, passthrough, command })
}

} // verus!
