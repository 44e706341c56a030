//! Walking the tree along a path of tokens, to a command line or to a help
//! listing.
//!
//! Each token names an entry of the table that the walk stands in. An entry
//! that is a table is stepped into. An entry that is anything else stops the
//! walk at once. A name that is not there does not stop it: the walk goes on
//! to the last token without looking anything up any more, and reports the
//! whole rest of the path, from the unknown name on, as not found.

use vstd::prelude::*;
use vstd::string::*;
use crate::config::{lookup, ConfigTable, ConfigValue, TableModel, ValueModel};
use crate::error::{CommandParseError, ErrorModel, InvalidContentReason, ReasonModel};

verus! {

/// One line of a help listing, as contracts see it: the subcommand's name, or
/// `None` for the command that was asked about, and the description where
/// there is one.
pub type HelpModel = (Option<Seq<char>>, Option<Seq<char>>);

/// One line of a help listing: the subcommand's name, or `None` for the
/// command that was asked about, and the description where there is one.
#[derive(Debug)]
pub struct HelpPair(pub Option<String>, pub Option<String>);

impl View for HelpPair {
    type V = HelpModel;

    open spec fn view(&self) -> HelpModel {
        (
            match self.0 {
                Some(name) => Some(name@),
                None => None,
            },
            match self.1 {
                Some(description) => Some(description@),
                None => None,
            },
        )
    }
}

/// The tokens as sequences of characters.
pub open spec fn token_views(tokens: Seq<&str>) -> Seq<Seq<char>> {
    Seq::new(tokens.len(), |i: int| tokens[i]@)
}

/// The lines of a listing as contracts see them.
pub open spec fn pair_views(pairs: Seq<HelpPair>) -> Seq<HelpModel> {
    Seq::new(pairs.len(), |i: int| pairs[i]@)
}

/// The tokens with one space between every two of them.
pub open spec fn join_tokens(tokens: Seq<Seq<char>>) -> Seq<char>
    decreases tokens.len(),
{
    if tokens.len() == 0 {
        Seq::empty()
    } else if tokens.len() == 1 {
        tokens[0]
    } else {
        join_tokens(tokens.drop_last()) + " "@ + tokens.last()
    }
}

/// Where the path leads: the table reached when every token named a table,
/// or the failure at the first token that did not.
pub open spec fn locate_model(table: TableModel, tokens: Seq<Seq<char>>) -> Result<
    TableModel,
    ErrorModel,
>
    decreases tokens.len(),
{
    if tokens.len() == 0 {
        Ok(table)
    } else {
        match lookup(table, tokens[0]) {
            Some(ValueModel::Table(next)) => locate_model(next, tokens.drop_first()),
            Some(value) => Err(
                ErrorModel::CommandContentInvalid(ReasonModel::NotTomlTable(tokens[0], value)),
            ),
            None => Err(ErrorModel::CommandNotFoundError(join_tokens(tokens))),
        }
    }
}

/// The command line that a table holds as its own.
pub open spec fn command_of(node: TableModel) -> Result<Seq<char>, ErrorModel> {
    match lookup(node, "command"@) {
        Some(ValueModel::String(line)) => Ok(line),
        Some(value) => Err(
            ErrorModel::CommandContentInvalid(ReasonModel::NotTomlString("command"@, value)),
        ),
        None => Err(ErrorModel::CommandContentInvalid(ReasonModel::MissingKey("command"@))),
    }
}

/// The command line at the end of the path.
pub open spec fn resolve_model(tree: TableModel, tokens: Seq<Seq<char>>) -> Result<
    Seq<char>,
    ErrorModel,
> {
    match locate_model(tree, tokens) {
        Ok(node) => command_of(node),
        Err(error) => Err(error),
    }
}

/// The description that a table holds as its own: its `desc`, where that is a
/// string.
pub open spec fn description_of(node: TableModel) -> Option<Seq<char>> {
    match lookup(node, "desc"@) {
        Some(ValueModel::String(text)) => Some(text),
        _ => None,
    }
}

/// The description of an entry: that of the table it holds, if it holds one.
pub open spec fn entry_description(value: ValueModel) -> Option<Seq<char>> {
    match value {
        ValueModel::Table(sub) => description_of(sub),
        _ => None,
    }
}

/// Every name but the two that a table keeps for itself is listed.
pub open spec fn is_listed(key: Seq<char>) -> bool {
    key != "desc"@ && key != "command"@
}

/// The listing's line for an entry.
pub open spec fn entry_line(entry: (Seq<char>, ValueModel)) -> HelpModel {
    (Some(entry.0), entry_description(entry.1))
}

/// The entries that are listed, in the order of the entries.
pub open spec fn listed_entries(node: TableModel) -> TableModel {
    node.filter(|entry: (Seq<char>, ValueModel)| is_listed(entry.0))
}

/// The listing's lines for entries, one for each.
pub open spec fn entry_lines(entries: TableModel) -> Seq<HelpModel> {
    entries.map_values(|entry: (Seq<char>, ValueModel)| entry_line(entry))
}

/// The listing of a table: its own line first, then a line for each entry
/// that is listed, in the order of the entries.
pub open spec fn help_model(node: TableModel) -> Seq<HelpModel> {
    seq![(None, description_of(node))] + entry_lines(listed_entries(node))
}

/// The listing at the end of the path.
pub open spec fn resolve_help_model(tree: TableModel, tokens: Seq<Seq<char>>) -> Result<
    Seq<HelpModel>,
    ErrorModel,
> {
    match locate_model(tree, tokens) {
        Ok(node) => Ok(help_model(node)),
        Err(error) => Err(error),
    }
}

/// `found` is what walking `tokens` from `tree` must give.
pub open spec fn is_location(
    tree: TableModel,
    tokens: Seq<Seq<char>>,
    found: Result<&ConfigTable, CommandParseError>,
) -> bool {
    match locate_model(tree, tokens) {
        Ok(node) => found matches Ok(table) && table@ == node,
        Err(error) => found matches Err(e) && e@ == error,
    }
}

/// `resolved` is what resolving `tokens` in `tree` must give.
pub open spec fn is_resolution(
    tree: TableModel,
    tokens: Seq<Seq<char>>,
    resolved: Result<String, CommandParseError>,
) -> bool {
    match resolve_model(tree, tokens) {
        Ok(line) => resolved matches Ok(text) && text@ == line,
        Err(error) => resolved matches Err(e) && e@ == error,
    }
}

/// `listed` is what asking for help on `tokens` in `tree` must give.
pub open spec fn is_help(
    tree: TableModel,
    tokens: Seq<Seq<char>>,
    listed: Result<Vec<HelpPair>, CommandParseError>,
) -> bool {
    match resolve_help_model(tree, tokens) {
        Ok(lines) => listed matches Ok(pairs) && pair_views(pairs@) == lines,
        Err(error) => listed matches Err(e) && e@ == error,
    }
}

/// Joining one token more puts a space and the token behind what was joined.
proof fn lemma_join_next(tokens: Seq<Seq<char>>, from: int, to: int)
    requires
        0 <= from < to < tokens.len(),
    ensures
        join_tokens(tokens.subrange(from, to + 1)) == join_tokens(tokens.subrange(from, to))
            + " "@ + tokens[to],
{
    let longer = tokens.subrange(from, to + 1);
    assert(longer.drop_last() =~= tokens.subrange(from, to));
    assert(longer.last() == tokens[to]);
}

/// Walks `tokens` from `tree` and hands out the table at the end of the path.
pub fn locate<'a>(tree: &'a ConfigTable, tokens: &Vec<&str>) -> (found: Result<
    &'a ConfigTable,
    CommandParseError,
>)
    ensures
        is_location(tree@, token_views(tokens@), found),
{
    let ghost path = token_views(tokens@);
    let mut node: &ConfigTable = tree;
    let mut command_not_found = false;
    let mut error_string = String::new();
    let ghost mut first_unknown: int = 0;
    let mut i: usize = 0;
    assert(path.skip(0) =~= path);
    while i < tokens.len()
        invariant
            i <= tokens@.len(),
            path == token_views(tokens@),
            !command_not_found ==> error_string@ == Seq::<char>::empty(),
            !command_not_found ==> locate_model(tree@, path) == locate_model(
                node@,
                path.skip(i as int),
            ),
            command_not_found ==> {
                &&& 0 <= first_unknown < i
                &&& locate_model(tree@, path) == Err::<TableModel, ErrorModel>(
                    ErrorModel::CommandNotFoundError(join_tokens(path.skip(first_unknown))),
                )
                &&& error_string@ == join_tokens(path.subrange(first_unknown, i as int))
            },
        decreases tokens@.len() - i,
    {
        let token = tokens[i];
        let ghost rest = path.skip(i as int);
        proof {
            assert(rest[0] == token@);
            assert(rest.drop_first() =~= path.skip(i as int + 1));
        }
        if !command_not_found {
            match node.get(token) {
                Some(value) => {
                    match value {
                        ConfigValue::Table(next_table) => {
                            node = next_table;
                        },
                        _ => {
                            return Err(
                                CommandParseError::CommandContentInvalid(
                                    InvalidContentReason::NotTomlTable(
                                        token.to_owned(),
                                        value.clone(),
                                    ),
                                ),
                            );
                        },
                    }
                },
                None => {
                    // Nothing is looked up from here on: the rest of the path
                    // is collected for the report.
                    command_not_found = true;
                    error_string.append(token);
                    proof {
                        first_unknown = i as int;
                        assert(path.subrange(i as int, i as int + 1) =~= seq![token@]);
                        assert(error_string@ =~= token@);
                    }
                },
            }
        } else {
            error_string.append(" ");
            error_string.append(token);
            proof {
                lemma_join_next(path, first_unknown, i as int);
            }
        }
        i += 1;
    }
    if command_not_found {
        proof {
            assert(path.subrange(first_unknown, i as int) =~= path.skip(first_unknown));
        }
        Err(CommandParseError::CommandNotFoundError(error_string))
    } else {
        Ok(node)
    }
}

/// The command line of the table, which must hold one as a string under
/// `command`.
pub fn command_line(node: &ConfigTable) -> (line: Result<String, CommandParseError>)
    ensures
        match command_of(node@) {
            Ok(text) => line matches Ok(l) && l@ == text,
            Err(error) => line matches Err(e) && e@ == error,
        },
{
    match node.get("command") {
        Some(exec_cmd) => match exec_cmd.as_str() {
            Some(text) => Ok(text.to_owned()),
            None => Err(
                CommandParseError::CommandContentInvalid(
                    InvalidContentReason::NotTomlString("command".to_owned(), exec_cmd.clone()),
                ),
            ),
        },
        None => Err(
            CommandParseError::CommandContentInvalid(
                InvalidContentReason::MissingKey("command".to_owned()),
            ),
        ),
    }
}

/// The description of the table: what it holds as a string under `desc`.
pub fn description(node: &ConfigTable) -> (text: Option<String>)
    ensures
        match description_of(node@) {
            Some(d) => text matches Some(t) && t@ == d,
            None => text is None,
        },
{
    match node.get("desc") {
        Some(value) => match value.as_str() {
            Some(text) => Some(text.to_owned()),
            None => None,
        },
        None => None,
    }
}

/// Listing one entry more: its line goes behind the others if it is listed.
proof fn lemma_listed_next(node: TableModel, i: int)
    requires
        0 <= i < node.len(),
    ensures
        entry_lines(listed_entries(node.take(i + 1))) == if is_listed(node[i].0) {
            entry_lines(listed_entries(node.take(i))).push(entry_line(node[i]))
        } else {
            entry_lines(listed_entries(node.take(i)))
        },
{
    let seen = listed_entries(node.take(i));
    assert(node.take(i + 1).drop_last() =~= node.take(i));
    assert(listed_entries(node.take(i + 1)) == if is_listed(node[i].0) {
        seen.push(node[i])
    } else {
        seen
    }) by {
        reveal(Seq::filter);
    }
    assert(entry_lines(seen.push(node[i])) =~= entry_lines(seen).push(entry_line(node[i])));
}

/// The help listing of the table: its own line, then its subcommands.
pub fn help_pairs(node: &ConfigTable) -> (pairs: Vec<HelpPair>)
    ensures
        pair_views(pairs@) == help_model(node@),
{
    let mut help_pairs: Vec<HelpPair> = Vec::new();
    help_pairs.push(HelpPair(None, description(node)));
    let ghost own_line = seq![(None::<Seq<char>>, description_of(node@))];
    proof {
        assert(listed_entries(node@.take(0)) =~= TableModel::empty()) by {
            reveal(Seq::filter);
        }
        assert(pair_views(help_pairs@) =~= own_line + entry_lines(listed_entries(node@.take(0))));
    }
    let desc_key = "desc".to_owned();
    let command_key = "command".to_owned();
    let mut i: usize = 0;
    while i < node.len()
        invariant
            i <= node@.len(),
            desc_key@ == "desc"@,
            command_key@ == "command"@,
            own_line == seq![(None::<Seq<char>>, description_of(node@))],
            pair_views(help_pairs@) == own_line + entry_lines(
                listed_entries(node@.take(i as int)),
            ),
        decreases node@.len() - i,
    {
        let (k, v) = node.entry(i);
        proof {
            lemma_listed_next(node@, i as int);
        }
        if *k != desc_key && *k != command_key {
            let description = match v {
                ConfigValue::Table(sub) => description(sub),
                _ => None,
            };
            let ghost before = pair_views(help_pairs@);
            help_pairs.push(HelpPair(Some(k.clone()), description));
            assert(pair_views(help_pairs@) =~= before.push(entry_line(node@[i as int])));
        }
        i += 1;
    }
    assert(node@.take(i as int) =~= node@);
    help_pairs
}

/// The command line for `tokens`: that of the table at the end of the path.
pub fn resolve(tree: &ConfigTable, tokens: &Vec<&str>) -> (resolved: Result<
    String,
    CommandParseError,
>)
    ensures
        is_resolution(tree@, token_views(tokens@), resolved),
{
    match locate(tree, tokens) {
        Ok(node) => command_line(node),
        Err(error) => Err(error),
    }
}

/// The help listing for `tokens`: that of the table at the end of the path.
pub fn resolve_help(tree: &ConfigTable, tokens: &Vec<&str>) -> (listed: Result<
    Vec<HelpPair>,
    CommandParseError,
>)
    ensures
        is_help(tree@, token_views(tokens@), listed),
{
    match locate(tree, tokens) {
        Ok(node) => Ok(help_pairs(node)),
        Err(error) => Err(error),
    }
}

} // verus!
