//! The usage block that a help listing is shown as.

use vstd::prelude::*;
use vstd::string::*;
use crate::resolver::{pair_views, token_views, HelpModel, HelpPair};

verus! {

/// The name under which the program speaks of itself.
pub const PROG_NAME: &'static str = "srun";

/// Each token with a space before it.
pub open spec fn spaced(tokens: Seq<Seq<char>>) -> Seq<char>
    decreases tokens.len(),
{
    if tokens.len() == 0 {
        Seq::empty()
    } else {
        spaced(tokens.drop_last()) + " "@ + tokens.last()
    }
}

/// The first line: the program, the path asked about, and a place for a
/// subcommand where the listing has any.
pub open spec fn usage_line(tokens: Seq<Seq<char>>, pairs: Seq<HelpModel>) -> Seq<char> {
    "usage: "@ + PROG_NAME@ + spaced(tokens) + if pairs.len() > 1 {
        " [command]"@
    } else {
        Seq::empty()
    } + "\n"@
}

/// The description of the command asked about: that of the first line of the
/// listing that has no name, if it has a description.
pub open spec fn own_description(pairs: Seq<HelpModel>) -> Option<Seq<char>>
    decreases pairs.len(),
{
    if pairs.len() == 0 {
        None
    } else if pairs[0].0 is None {
        pairs[0].1
    } else {
        own_description(pairs.drop_first())
    }
}

/// The description on a line of its own, set off by an empty line from the
/// subcommands where there are any.
pub open spec fn description_block(pairs: Seq<HelpModel>) -> Seq<char> {
    match own_description(pairs) {
        Some(text) => text + "\n"@ + if pairs.len() > 1 {
            "\n"@
        } else {
            Seq::empty()
        },
        None => Seq::empty(),
    }
}

/// The line of one subcommand: indented, with its description where it has
/// one. The line without a name gives nothing here.
pub open spec fn command_line(pair: HelpModel) -> Seq<char> {
    match pair {
        (Some(name), Some(text)) => "    "@ + name + ": "@ + text + "\n"@,
        (Some(name), None) => "    "@ + name + "\n"@,
        (None, _) => Seq::empty(),
    }
}

/// The lines of all subcommands, in the order of the listing.
pub open spec fn command_lines(pairs: Seq<HelpModel>) -> Seq<char>
    decreases pairs.len(),
{
    if pairs.len() == 0 {
        Seq::empty()
    } else {
        command_lines(pairs.drop_last()) + command_line(pairs.last())
    }
}

/// The subcommands under their heading, where the listing has any.
pub open spec fn commands_block(pairs: Seq<HelpModel>) -> Seq<char> {
    if pairs.len() > 1 {
        "commands:\n"@ + command_lines(pairs)
    } else {
        Seq::empty()
    }
}

/// The whole usage block.
pub open spec fn help_text_model(tokens: Seq<Seq<char>>, pairs: Seq<HelpModel>) -> Seq<char> {
    usage_line(tokens, pairs) + description_block(pairs) + commands_block(pairs)
}

/// The description of the command asked about.
fn find_own_description(help_pairs: &Vec<HelpPair>) -> (found: Option<&String>)
    ensures
        match own_description(pair_views(help_pairs@)) {
            Some(text) => found matches Some(d) && d@ == text,
            None => found is None,
        },
{
    let ghost pairs = pair_views(help_pairs@);
    let mut i: usize = 0;
    assert(pairs.skip(0) =~= pairs);
    while i < help_pairs.len()
        invariant
            i <= help_pairs@.len(),
            pairs == pair_views(help_pairs@),
            own_description(pairs) == own_description(pairs.skip(i as int)),
        decreases help_pairs@.len() - i,
    {
        let ghost rest = pairs.skip(i as int);
        assert(rest[0] == help_pairs@[i as int]@);
        assert(rest.drop_first() =~= pairs.skip(i as int + 1));
        if help_pairs[i].0.is_none() {
            return match &help_pairs[i].1 {
                Some(text) => Some(text),
                None => None,
            };
        }
        i += 1;
    }
    None
}

/// Renders the usage block for the help listing of `command`.
pub fn help_text(command: &Vec<&str>, help_pairs: &Vec<HelpPair>) -> (text: String)
    ensures
        text@ == help_text_model(token_views(command@), pair_views(help_pairs@)),
{
    let ghost tokens = token_views(command@);
    let ghost pairs = pair_views(help_pairs@);
    let mut text = String::from_str("usage: ");
    text.append(PROG_NAME);
    let ghost head = text@;
    let mut i: usize = 0;
    assert(tokens.take(0) =~= Seq::<Seq<char>>::empty());
    assert(text@ =~= head + spaced(tokens.take(0)));
    while i < command.len()
        invariant
            i <= command@.len(),
            tokens == token_views(command@),
            head == "usage: "@ + PROG_NAME@,
            text@ == head + spaced(tokens.take(i as int)),
        decreases command@.len() - i,
    {
        text.append(" ");
        text.append(command[i]);
        proof {
            let more = tokens.take(i as int + 1);
            assert(more.drop_last() =~= tokens.take(i as int));
            assert(more.last() == command@[i as int]@);
            assert(text@ =~= head + spaced(more));
        }
        i += 1;
    }
    assert(tokens.take(i as int) =~= tokens);
    if help_pairs.len() > 1 {
        text.append(" [command]");
    }
    text.append("\n");
    assert(text@ =~= usage_line(tokens, pairs));
    match find_own_description(help_pairs) {
        Some(desc) => {
            text.append(desc.as_str());
            text.append("\n");
            if help_pairs.len() > 1 {
                text.append("\n");
            }
        },
        None => {},
    }
    assert(text@ =~= usage_line(tokens, pairs) + description_block(pairs));
    if help_pairs.len() > 1 {
        text.append("commands:\n");
        let ghost top = text@;
        let mut j: usize = 0;
        assert(pairs.take(0) =~= Seq::<HelpModel>::empty());
        assert(text@ =~= top + command_lines(pairs.take(0)));
        while j < help_pairs.len()
            invariant
                j <= help_pairs@.len(),
                pairs == pair_views(help_pairs@),
                text@ == top + command_lines(pairs.take(j as int)),
            decreases help_pairs@.len() - j,
        {
            let ghost before = text@;
            match &help_pairs[j].0 {
                Some(cmd) => {
                    text.append("    ");
                    text.append(cmd.as_str());
                    match &help_pairs[j].1 {
                        Some(desc) => {
                            text.append(": ");
                            text.append(desc.as_str());
                        },
                        None => {},
                    }
                    text.append("\n");
                },
                None => {},
            }
            proof {
                let more = pairs.take(j as int + 1);
                assert(more.drop_last() =~= pairs.take(j as int));
                assert(more.last() == help_pairs@[j as int]@);
                assert(text@ =~= before + command_line(more.last()));
                assert(text@ =~= top + command_lines(more));
            }
            j += 1;
        }
        assert(pairs.take(j as int) =~= pairs);
        assert(text@ =~= usage_line(tokens, pairs) + description_block(pairs) + commands_block(
            pairs,
        ));
    }
    text
}

} // verus!
