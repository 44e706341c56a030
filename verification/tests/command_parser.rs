use srun::command_parser::{get_command, get_command_help, get_command_toml};
use srun::config::ConfigValue;
use srun::error::{CommandParseError, InvalidContentReason};
use srun::loader::toml_to_map;

const TOML_COMMAND_DATA: &str = r#"
            [foo]
            bar = { command = "bar exec", desc = "bar desc" }
            qux = "quux"
            desc = "foo desc"
            command = { }
            [baz]
        "#;

fn check_not_found(cmd_str: &str, invalid_portion: &str) {
    let result = get_command(TOML_COMMAND_DATA, &cmd_str.split_whitespace().collect());
    assert!(result.is_err());
    match result.unwrap_err() {
        CommandParseError::CommandNotFoundError(s) => assert_eq!(s, invalid_portion),
        err => panic!(
            "Expected `CommandParseError::CommandNotFoundError`, got {:?}",
            err
        ),
    }
}

#[test]
fn test_toml_to_map_invalid() {
    let toml_str = "invalid toml";
    let result = toml_to_map(toml_str);
    assert!(result.is_err());
    match result.unwrap_err() {
        CommandParseError::TomlDeError(_) => {}
        err => panic!("Expected CommandParseError::TomlDeError, got {:?}", err),
    }
}

#[test]
fn test_get_command_valid() {
    let result = get_command(TOML_COMMAND_DATA, &"foo bar".split_whitespace().collect());
    assert!(result.is_ok());
    assert_eq!(result.unwrap(), "bar exec")
}

#[test]
fn test_get_command_no_command_skipped_subcommand() {
    check_not_found("bar", "bar");
}

#[test]
fn test_get_command_no_command_bad_child_of_valid_subcommand() {
    check_not_found("foo baz", "baz");
}

#[test]
fn test_get_command_no_command_bad_child_of_valid_command() {
    check_not_found("foo bar baz", "baz");
}

#[test]
fn test_get_command_no_command_multiple_invalid_components() {
    check_not_found("foo bar baz qux quux", "baz qux quux");
}

#[test]
fn test_get_command_empty_command() {
    let result = get_command(TOML_COMMAND_DATA, &vec!["baz"]);
    assert!(result.is_err());
    match result.unwrap_err() {
        CommandParseError::CommandContentInvalid(InvalidContentReason::MissingKey(key)) => {
            assert_eq!(key, "command")
        }
        err => panic!(
            "Expected `CommandParseError::CommandNotFoundError`, got {:?}",
            err
        ),
    }
}

#[test]
fn test_get_command_not_table() {
    let result = get_command(TOML_COMMAND_DATA, &"foo qux".split_whitespace().collect());
    assert!(result.is_err());
    match result.unwrap_err() {
        CommandParseError::CommandContentInvalid(InvalidContentReason::NotTomlTable(
            key,
            value,
        )) => {
            assert_eq!(key, "qux");
            if let ConfigValue::String(_) = value {
            } else {
                panic!("Expected a `Value::Table` but got {:?}", value)
            }
        }
        err => panic!(
            "Expected wrapped `InvalidContentReason::NotTomlTable`, but got {:?}",
            err
        ),
    }
}

#[test]
fn test_get_command_not_string() {
    let result = get_command(TOML_COMMAND_DATA, &"foo".split_whitespace().collect());
    assert!(result.is_err());
    match result.unwrap_err() {
        CommandParseError::CommandContentInvalid(InvalidContentReason::NotTomlString(
            key,
            value,
        )) => {
            assert_eq!(key, "command");
            if let ConfigValue::String(_) = value {
                panic!("Expected a `Value::String` but got {:?}", value)
            }
        }
        err => panic!(
            "Expected wrapped `InvalidContentReason::NotTomlString`, but got {:?}",
            err
        ),
    }
}

#[test]
fn test_get_command_help() {
    let result = get_command_help(TOML_COMMAND_DATA, &"foo".split_whitespace().collect());
    assert!(result.is_ok());
    let result = result.unwrap();
    if let [foo, bar, qux] = &result[..] {
        assert_eq!(foo.0, None);
        assert_eq!(foo.1, Some("foo desc".to_string()));
        assert_eq!(bar.0, Some("bar".to_string()));
        assert_eq!(bar.1, Some("bar desc".to_string()));
        assert_eq!(qux.0, Some("qux".to_string()));
        assert_eq!(qux.1, None);
    } else {
        panic!(
            "Too many help pairs. Expected 3 but got {}\nData: {:?}",
            result.len(),
            result
        );
    }
}

#[test]
fn get_command_toml_hands_out_the_table_at_the_end_of_the_path() {
    let table = get_command_toml(TOML_COMMAND_DATA, &vec!["foo", "bar"]).unwrap();
    assert_eq!(table.len(), 2);
    let (key, value) = table.entry(0);
    assert_eq!(key, "command");
    assert_eq!(value.as_str(), Some("bar exec"));
    let (key, value) = table.entry(1);
    assert_eq!(key, "desc");
    assert_eq!(value.as_str(), Some("bar desc"));
}
