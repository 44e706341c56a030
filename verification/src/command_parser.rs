//! From a configuration text and a path of tokens to a command line or a help
//! listing: loading, then resolving.

use vstd::prelude::*;
use crate::config::ConfigTable;
use crate::error::{CommandParseError, ErrorModel};
use crate::guarantees::lemma_walk_keeps_well_formed;
use crate::loader::{parsed_document, toml_to_map};
use crate::resolver::{
    is_help,
    is_resolution,
    locate,
    locate_model,
    resolve,
    resolve_help,
    token_views,
    HelpPair,
};

verus! {

/// The table that `command` leads to in the configuration `toml_str`.
pub fn get_command_toml(toml_str: &str, command: &Vec<&str>) -> (found: Result<
    ConfigTable,
    CommandParseError,
>)
    ensures
        match parsed_document(toml_str@) {
            Some(tree) => match locate_model(tree, token_views(command@)) {
                Ok(node) => found matches Ok(table) && table@ == node && table.wf(),
                Err(error) => found matches Err(e) && e@ == error,
            },
            None => found matches Err(e) && e@ == ErrorModel::TomlDeError,
        },
{
    let toml_data = match toml_to_map(toml_str) {
        Ok(tree) => tree,
        Err(error) => {
            return Err(error);
        },
    };
    match locate(&toml_data, command) {
        Ok(node) => {
            proof {
                lemma_walk_keeps_well_formed(toml_data@, token_views(command@), node@);
            }
            Ok(node.clone())
        },
        Err(error) => Err(error),
    }
}

/// The command line that `command` names in the configuration `toml_str`.
pub fn get_command(toml_str: &str, command: &Vec<&str>) -> (resolved: Result<
    String,
    CommandParseError,
>)
    ensures
        match parsed_document(toml_str@) {
            Some(tree) => is_resolution(tree, token_views(command@), resolved),
            None => resolved matches Err(e) && e@ == ErrorModel::TomlDeError,
        },
{
    match toml_to_map(toml_str) {
        Ok(tree) => resolve(&tree, command),
        Err(error) => Err(error),
    }
}

/// The help listing for `command` in the configuration `toml_str`.
pub fn get_command_help(toml_str: &str, command: &Vec<&str>) -> (listed: Result<
    Vec<HelpPair>,
    CommandParseError,
>)
    ensures
        match parsed_document(toml_str@) {
            Some(tree) => is_help(tree, token_views(command@), listed),
            None => listed matches Err(e) && e@ == ErrorModel::TomlDeError,
        },
{
    match toml_to_map(toml_str) {
        Ok(tree) => resolve_help(&tree, command),
        Err(error) => Err(error),
    }
}

} // verus!
