//! What holds of every walk, stated once and proved.

use vstd::prelude::*;
use crate::config::{lemma_lookup_is_entry, lookup, well_formed, TableModel, ValueModel};
use crate::error::{CommandParseError, ErrorModel, ReasonModel};
use crate::resolver::{
    description_of,
    entry_line,
    help_model,
    is_help,
    is_listed,
    is_resolution,
    join_tokens,
    listed_entries,
    locate_model,
    pair_views,
    resolve_help_model,
    resolve_model,
    HelpModel,
    HelpPair,
};

verus! {

/// What a resolution says, as contracts see it.
pub open spec fn resolution_view(resolved: Result<String, CommandParseError>) -> Result<
    Seq<char>,
    ErrorModel,
> {
    match resolved {
        Ok(line) => Ok(line@),
        Err(error) => Err(error@),
    }
}

/// What a help listing says, as contracts see it.
pub open spec fn listing_view(listed: Result<Vec<HelpPair>, CommandParseError>) -> Result<
    Seq<HelpModel>,
    ErrorModel,
> {
    match listed {
        Ok(pairs) => Ok(pair_views(pairs@)),
        Err(error) => Err(error@),
    }
}

/// A walk can be made in two parts: where the first `k` tokens lead to a
/// table, the whole path leads where the rest of it leads from that table.
pub proof fn lemma_walk_in_two(
    tree: TableModel,
    tokens: Seq<Seq<char>>,
    k: int,
    node: TableModel,
)
    requires
        0 <= k <= tokens.len(),
        locate_model(tree, tokens.take(k)) == Ok::<TableModel, ErrorModel>(node),
    ensures
        locate_model(tree, tokens) == locate_model(node, tokens.skip(k)),
    decreases k,
{
    if k == 0 {
        assert(tokens.skip(0) =~= tokens);
    } else {
        let front = tokens.take(k);
        assert(front[0] == tokens[0]);
        assert(front.drop_first() =~= tokens.drop_first().take(k - 1));
        assert(tokens.drop_first().skip(k - 1) =~= tokens.skip(k));
        match lookup(tree, tokens[0]) {
            Some(ValueModel::Table(next)) => {
                lemma_walk_in_two(next, tokens.drop_first(), k - 1, node);
            },
            _ => {},
        }
    }
}

/// A walk through a tree without repeated names ends at a table without
/// repeated names.
pub proof fn lemma_walk_keeps_well_formed(
    tree: TableModel,
    tokens: Seq<Seq<char>>,
    node: TableModel,
)
    requires
        well_formed(tree),
        locate_model(tree, tokens) == Ok::<TableModel, ErrorModel>(node),
    ensures
        well_formed(node),
    decreases tokens.len(),
{
    if tokens.len() > 0 {
        let i = lemma_lookup_is_entry(tree, tokens[0]);
        match tree[i].1 {
            ValueModel::Table(next) => {
                lemma_walk_keeps_well_formed(next, tokens.drop_first(), node);
            },
            _ => {},
        }
    }
}

/// A name that is not there is reported with all that follows it. Where the
/// first `k` tokens lead to a table that has no entry for the next one, the
/// walk fails as not found, with the tokens from that one to the last joined
/// by single spaces, whatever the later tokens are; so do both resolutions.
pub proof fn lemma_unknown_name_reports_rest(
    tree: TableModel,
    tokens: Seq<Seq<char>>,
    k: int,
    node: TableModel,
)
    requires
        0 <= k < tokens.len(),
        locate_model(tree, tokens.take(k)) == Ok::<TableModel, ErrorModel>(node),
        lookup(node, tokens[k]) is None,
    ensures
        locate_model(tree, tokens) == Err::<TableModel, ErrorModel>(
            ErrorModel::CommandNotFoundError(join_tokens(tokens.skip(k))),
        ),
        resolve_model(tree, tokens) == Err::<Seq<char>, ErrorModel>(
            ErrorModel::CommandNotFoundError(join_tokens(tokens.skip(k))),
        ),
        resolve_help_model(tree, tokens) == Err::<Seq<HelpModel>, ErrorModel>(
            ErrorModel::CommandNotFoundError(join_tokens(tokens.skip(k))),
        ),
{
    lemma_walk_in_two(tree, tokens, k, node);
    assert(tokens.skip(k)[0] == tokens[k]);
}

/// A path whose first token names nothing in the tree is reported whole.
pub proof fn lemma_unknown_path_is_reported_whole(tree: TableModel, tokens: Seq<Seq<char>>)
    requires
        tokens.len() > 0,
        lookup(tree, tokens[0]) is None,
    ensures
        resolve_model(tree, tokens) == Err::<Seq<char>, ErrorModel>(
            ErrorModel::CommandNotFoundError(join_tokens(tokens)),
        ),
        resolve_help_model(tree, tokens) == Err::<Seq<HelpModel>, ErrorModel>(
            ErrorModel::CommandNotFoundError(join_tokens(tokens)),
        ),
{
}

/// Joined tokens are the tokens in their order with one space between every
/// two: joining two paths that both have a token puts one space between what
/// each gives joined.
pub proof fn lemma_join_in_two(front: Seq<Seq<char>>, back: Seq<Seq<char>>)
    requires
        front.len() > 0,
        back.len() > 0,
    ensures
        join_tokens(front + back) == join_tokens(front) + " "@ + join_tokens(back),
    decreases back.len(),
{
    let all = front + back;
    assert(all.last() == back.last());
    if back.len() == 1 {
        assert(all.drop_last() =~= front);
    } else {
        assert(all.drop_last() =~= front + back.drop_last());
        lemma_join_in_two(front, back.drop_last());
        assert(join_tokens(front) + " "@ + join_tokens(back.drop_last()) + " "@ + back.last()
            =~= join_tokens(front) + " "@ + (join_tokens(back.drop_last()) + " "@ + back.last()));
    }
}

/// A value that is no table stops the walk. Where the first `k` tokens lead
/// to a table in which the next one names such a value, the walk fails with
/// that token and that value, and so do both resolutions.
pub proof fn lemma_scalar_stops_walk(
    tree: TableModel,
    tokens: Seq<Seq<char>>,
    k: int,
    node: TableModel,
    value: ValueModel,
)
    requires
        0 <= k < tokens.len(),
        locate_model(tree, tokens.take(k)) == Ok::<TableModel, ErrorModel>(node),
        lookup(node, tokens[k]) == Some(value),
        !(value is Table),
    ensures
        locate_model(tree, tokens) == Err::<TableModel, ErrorModel>(
            ErrorModel::CommandContentInvalid(ReasonModel::NotTomlTable(tokens[k], value)),
        ),
        resolve_model(tree, tokens) == Err::<Seq<char>, ErrorModel>(
            ErrorModel::CommandContentInvalid(ReasonModel::NotTomlTable(tokens[k], value)),
        ),
        resolve_help_model(tree, tokens) == Err::<Seq<HelpModel>, ErrorModel>(
            ErrorModel::CommandContentInvalid(ReasonModel::NotTomlTable(tokens[k], value)),
        ),
{
    lemma_walk_in_two(tree, tokens, k, node);
    assert(tokens.skip(k)[0] == tokens[k]);
}

/// The tokens behind a value that is no table are never read: two paths that
/// agree up to the token that names it fail alike.
pub proof fn lemma_tokens_behind_scalar_are_unread(
    tree: TableModel,
    tokens: Seq<Seq<char>>,
    other: Seq<Seq<char>>,
    k: int,
    node: TableModel,
    value: ValueModel,
)
    requires
        0 <= k < tokens.len(),
        k < other.len(),
        other.take(k + 1) == tokens.take(k + 1),
        locate_model(tree, tokens.take(k)) == Ok::<TableModel, ErrorModel>(node),
        lookup(node, tokens[k]) == Some(value),
        !(value is Table),
    ensures
        resolve_model(tree, other) == resolve_model(tree, tokens),
        resolve_help_model(tree, other) == resolve_help_model(tree, tokens),
{
    assert(other[k] == other.take(k + 1)[k]);
    assert(tokens[k] == tokens.take(k + 1)[k]);
    assert(other.take(k) =~= other.take(k + 1).take(k));
    assert(tokens.take(k) =~= tokens.take(k + 1).take(k));
    lemma_scalar_stops_walk(tree, tokens, k, node, value);
    lemma_scalar_stops_walk(tree, other, k, node, value);
}

/// A command line comes out as it stands in the table at the end of the path.
pub proof fn lemma_command_line_is_verbatim(
    tree: TableModel,
    tokens: Seq<Seq<char>>,
    node: TableModel,
    line: Seq<char>,
)
    requires
        locate_model(tree, tokens) == Ok::<TableModel, ErrorModel>(node),
        lookup(node, "command"@) == Some(ValueModel::String(line)),
    ensures
        resolve_model(tree, tokens) == Ok::<Seq<char>, ErrorModel>(line),
{
}

/// A table without `command` resolves to the failure that names the key.
pub proof fn lemma_command_is_required(
    tree: TableModel,
    tokens: Seq<Seq<char>>,
    node: TableModel,
)
    requires
        locate_model(tree, tokens) == Ok::<TableModel, ErrorModel>(node),
        lookup(node, "command"@) is None,
    ensures
        resolve_model(tree, tokens) == Err::<Seq<char>, ErrorModel>(
            ErrorModel::CommandContentInvalid(ReasonModel::MissingKey("command"@)),
        ),
{
}

/// A listing begins with the line of the table itself, which has no name;
/// every line behind it has one; and it is that one line alone exactly when
/// the table has no entry that is listed.
pub proof fn lemma_listing_shape(node: TableModel)
    ensures
        help_model(node).len() == 1 + listed_entries(node).len(),
        help_model(node)[0] == (None::<Seq<char>>, description_of(node)),
        forall|j: int| 1 <= j < help_model(node).len() ==> (#[trigger] help_model(node)[j]).0 is Some,
        help_model(node).len() == 1 <==> forall|i: int|
            0 <= i < node.len() ==> !is_listed(#[trigger] node[i].0),
{
    let listed = |entry: (Seq<char>, ValueModel)| is_listed(entry.0);
    let kept = listed_entries(node);
    if kept.len() == 0 {
        assert forall|i: int| 0 <= i < node.len() implies !is_listed(#[trigger] node[i].0) by {
            if is_listed(node[i].0) {
                node.lemma_filter_contains(listed, i);
            }
        }
    } else {
        node.lemma_filter_pred(listed, 0);
        node.lemma_filter_contains_rev(listed, kept[0]);
        let i = choose|i: int| 0 <= i < node.len() && node[i] == kept[0];
        assert(is_listed(node[i].0));
    }
}

/// Every entry that is listed has its line in the listing.
pub proof fn lemma_listed_entry_has_line(node: TableModel, i: int) -> (j: int)
    requires
        0 <= i < node.len(),
        is_listed(node[i].0),
    ensures
        1 <= j < help_model(node).len(),
        help_model(node)[j] == entry_line(node[i]),
{
    let listed = |entry: (Seq<char>, ValueModel)| is_listed(entry.0);
    node.lemma_filter_contains(listed, i);
    let kept = listed_entries(node);
    let at = choose|at: int| 0 <= at < kept.len() && kept[at] == node[i];
    at + 1
}

/// Asking twice gives the same: whatever two resolutions of one path in one
/// tree return, they say the same.
pub proof fn lemma_resolve_is_repeatable(
    tree: TableModel,
    tokens: Seq<Seq<char>>,
    first: Result<String, CommandParseError>,
    second: Result<String, CommandParseError>,
)
    requires
        is_resolution(tree, tokens, first),
        is_resolution(tree, tokens, second),
    ensures
        resolution_view(first) == resolution_view(second),
        resolution_view(first) == resolve_model(tree, tokens),
{
}

/// Asking for help twice gives the same listing or the same failure.
pub proof fn lemma_resolve_help_is_repeatable(
    tree: TableModel,
    tokens: Seq<Seq<char>>,
    first: Result<Vec<HelpPair>, CommandParseError>,
    second: Result<Vec<HelpPair>, CommandParseError>,
)
    requires
        is_help(tree, tokens, first),
        is_help(tree, tokens, second),
    ensures
        listing_view(first) == listing_view(second),
        listing_view(first) == resolve_help_model(tree, tokens),
{
}

/// A table can be a command and hold subcommands at once. Where the path ends
/// at a table with a command line of its own and with an entry that is a
/// table, resolving gives the command line and help gives the listing of the
/// table, each whatever the other does; the listing has a line for the entry
/// unless it goes by one of the two names that a table keeps for itself.
pub proof fn lemma_command_with_subcommands(
    tree: TableModel,
    tokens: Seq<Seq<char>>,
    node: TableModel,
    line: Seq<char>,
    i: int,
)
    requires
        locate_model(tree, tokens) == Ok::<TableModel, ErrorModel>(node),
        lookup(node, "command"@) == Some(ValueModel::String(line)),
        0 <= i < node.len(),
        node[i].1 is Table,
    ensures
        resolve_model(tree, tokens) == Ok::<Seq<char>, ErrorModel>(line),
        resolve_help_model(tree, tokens) == Ok::<Seq<HelpModel>, ErrorModel>(help_model(node)),
        help_model(node)[0] == (None::<Seq<char>>, description_of(node)),
        is_listed(node[i].0) ==> help_model(node).len() >= 2 && help_model(node).contains(
            entry_line(node[i]),
        ),
{
    lemma_listing_shape(node);
    if is_listed(node[i].0) {
        let j = lemma_listed_entry_has_line(node, i);
        assert(help_model(node)[j] == entry_line(node[i]));
    }
}

} // verus!
