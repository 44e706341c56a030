//! From configuration text to a tree.
//!
//! The `toml` crate parses; what it builds is read here entry by entry into a
//! [`ConfigTable`]. Loading looks at syntax only: whether a table makes a
//! usable command is found out when it is asked for.

use vstd::prelude::*;
use crate::config::{
    absent,
    value_well_formed,
    ConfigTable,
    ConfigValue,
    TableModel,
    ValueModel,
};
use crate::error::{CommandParseError, ErrorModel};

verus! {

/// `toml::Value`: a value as the parser built it.
#[verifier::external_type_specification]
#[verifier::external_body]
pub struct ExTomlValue(toml::Value);

/// `toml::map::Map`: the parser's table, of which `toml::Table` is the
/// instance with `String` keys and `toml::Value` values.
#[verifier::external_type_specification]
#[verifier::external_body]
#[verifier::reject_recursive_types(K)]
#[verifier::reject_recursive_types(V)]
pub struct ExTomlMap<K, V>(toml::map::Map<K, V>);

/// What `toml::from_str` makes of a text: the entries of the document's root
/// table, or `None` where the text is no TOML document.
pub uninterp spec fn parsed_document(text: Seq<char>) -> Option<TableModel>;

/// The entries that a `toml::Table` holds, in the order in which it hands them
/// out.
pub uninterp spec fn table_model(table: toml::map::Map<String, toml::Value>) -> TableModel;

/// What a `toml::Value` holds: its kind, with the text of a string and the
/// entries of a table.
pub uninterp spec fn value_model(value: toml::Value) -> ValueModel;

/// A `toml::Value` told apart by its variant, with the two payloads that the
/// tree keeps.
enum Shape<'a> {
    String(&'a str),
    Integer,
    Float,
    Boolean,
    Datetime,
    Array,
    Table(&'a toml::map::Map<String, toml::Value>),
}

spec fn shape_model(shape: Shape) -> ValueModel {
    match shape {
        Shape::String(text) => ValueModel::String(text@),
        Shape::Integer => ValueModel::Integer,
        Shape::Float => ValueModel::Float,
        Shape::Boolean => ValueModel::Boolean,
        Shape::Datetime => ValueModel::Datetime,
        Shape::Array => ValueModel::Array,
        Shape::Table(table) => ValueModel::Table(table_model(*table)),
    }
}

/// Calls `toml::from_str` for a `toml::Table`. The parser's answer depends on
/// the text alone: it fails exactly on the texts that are no TOML document,
/// and else gives the root table of the document.
#[verifier::external_body]
fn parse_document(text: &str) -> (parsed: Result<
    toml::map::Map<String, toml::Value>,
    toml::de::Error,
>)
    ensures
        parsed is Ok <==> parsed_document(text@) is Some,
        parsed matches Ok(table) ==> parsed_document(text@) == Some(table_model(table)),
{
    toml::from_str::<toml::Table>(text)
}

/// Walks `toml::map::Map::iter` to its end. The iterator yields the entries
/// of the map in its order, each once, with its key and its value; a map
/// holds no key twice.
#[verifier::external_body]
fn table_items<'a>(table: &'a toml::map::Map<String, toml::Value>) -> (items: Vec<
    (&'a String, &'a toml::Value),
>)
    ensures
        items@.len() == table_model(*table).len(),
        forall|i: int|
            0 <= i < items@.len() ==> #[trigger] table_model(*table)[i] == (
                items@[i].0@,
                value_model(*items@[i].1),
            ),
        forall|i: int, j: int| 0 <= i < j < items@.len() ==> items@[i].0@ != items@[j].0@,
{
    table.iter().collect()
}

/// Tells the variants of `toml::Value` apart, one arm for each. What comes
/// back is of the kind of the value and refers to the text that a string
/// holds and to the table that a table value holds.
#[verifier::external_body]
fn value_shape<'a>(value: &'a toml::Value) -> (shape: Shape<'a>)
    ensures
        shape_model(shape) == value_model(*value),
{
    match value {
        toml::Value::String(text) => Shape::String(text.as_str()),
        toml::Value::Integer(_) => Shape::Integer,
        toml::Value::Float(_) => Shape::Float,
        toml::Value::Boolean(_) => Shape::Boolean,
        toml::Value::Datetime(_) => Shape::Datetime,
        toml::Value::Array(_) => Shape::Array,
        toml::Value::Table(table) => Shape::Table(table),
    }
}

/// The tree value for a parsed value.
fn value_from_toml(value: &toml::Value) -> (converted: ConfigValue)
    ensures
        converted@ == value_model(*value),
        value_well_formed(converted@),
    decreases value_model(*value),
{
    match value_shape(value) {
        Shape::String(text) => ConfigValue::String(text.to_owned()),
        Shape::Integer => ConfigValue::Integer,
        Shape::Float => ConfigValue::Float,
        Shape::Boolean => ConfigValue::Boolean,
        Shape::Datetime => ConfigValue::Datetime,
        Shape::Array => ConfigValue::Array,
        Shape::Table(table) => {
            proof {
                let model = value_model(*value);
                assert(model == ValueModel::Table(table_model(*table)));
                assert(decreases_to!(model => model->Table_0));
            }
            ConfigValue::Table(table_from_toml(table))
        },
    }
}

/// The tree table for a parsed table: the same entries in the same order.
fn table_from_toml(table: &toml::map::Map<String, toml::Value>) -> (converted: ConfigTable)
    ensures
        converted@ == table_model(*table),
        converted.wf(),
    decreases table_model(*table),
{
    let items = table_items(table);
    let ghost model = table_model(*table);
    let mut converted = ConfigTable::new();
    let mut i: usize = 0;
    while i < items.len()
        invariant
            i <= items@.len(),
            model == table_model(*table),
            items@.len() == model.len(),
            forall|j: int|
                0 <= j < items@.len() ==> #[trigger] model[j] == (
                    items@[j].0@,
                    value_model(*items@[j].1),
                ),
            forall|a: int, b: int| 0 <= a < b < items@.len() ==> items@[a].0@ != items@[b].0@,
            converted@ == model.take(i as int),
            converted.wf(),
        decreases items@.len() - i,
    {
        let key = items[i].0;
        let value = items[i].1;
        proof {
            // The value stands below the table that holds it.
            let entry_model = model[i as int];
            assert(entry_model == (key@, value_model(*value)));
            assert(decreases_to!(model => entry_model));
            assert(decreases_to!(entry_model => entry_model.1));
        }
        let entry = value_from_toml(value);
        proof {
            // No entry read so far has this key, so this one goes in last.
            assert forall|j: int| 0 <= j < converted@.len() implies converted@[j].0 != key@ by {
                assert(converted@[j] == model[j]);
                assert(model[j].0 == items@[j].0@);
            }
            assert(absent(converted@, key@));
            assert(model.take(i as int).push(model[i as int]) =~= model.take(i as int + 1));
        }
        converted.insert(key.clone(), entry);
        i += 1;
    }
    assert(model.take(i as int) =~= model);
    converted
}

/// Parses `toml_str` into a tree. The text is held to TOML's syntax and to
/// nothing else.
pub fn toml_to_map(toml_str: &str) -> (loaded: Result<ConfigTable, CommandParseError>)
    ensures
        match parsed_document(toml_str@) {
            Some(tree) => loaded matches Ok(table) && table@ == tree && table.wf(),
            None => loaded matches Err(error) && error@ == ErrorModel::TomlDeError,
        },
{
    match parse_document(toml_str) {
        Ok(table) => Ok(table_from_toml(&table)),
        Err(error) => Err(CommandParseError::from(error)),
    }
}

} // verus!
