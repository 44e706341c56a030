use srun::config::{ConfigTable, ConfigValue};
use srun::error::{CommandParseError, InvalidContentReason};
use srun::loader::toml_to_map;
use srun::resolver::{command_line, description, help_pairs, locate, resolve, resolve_help, HelpPair};

const BASIC_TOML_COMMAND_DATA: &str = r#"
    [s]
    desc = "s desc"
    c1 = { command = "echo c1 ran", desc = "c1 desc" }
    c2 = { command = "echo c2 ran" }
"#;

fn basic_tree() -> ConfigTable {
    toml_to_map(BASIC_TOML_COMMAND_DATA).unwrap()
}

fn text(value: &str) -> ConfigValue {
    ConfigValue::String(value.to_string())
}

fn leaf(command: &str) -> ConfigTable {
    let mut table = ConfigTable::new();
    table.insert("command".to_string(), text(command));
    table
}

fn pairs_of(listed: &[HelpPair]) -> Vec<(Option<&str>, Option<&str>)> {
    listed
        .iter()
        .map(|pair| (pair.0.as_deref(), pair.1.as_deref()))
        .collect()
}

fn not_found(result: Result<String, CommandParseError>) -> String {
    match result {
        Err(CommandParseError::CommandNotFoundError(rest)) => rest,
        other => panic!("expected a command that is not found, got {:?}", other),
    }
}

#[test]
fn resolve_returns_the_command_line_untouched() {
    let tree = basic_tree();
    assert_eq!(resolve(&tree, &vec!["s", "c1"]).unwrap(), "echo c1 ran");
    assert_eq!(resolve(&tree, &vec!["s", "c2"]).unwrap(), "echo c2 ran");
}

#[test]
fn resolve_neither_trims_nor_escapes() {
    let mut tree = ConfigTable::new();
    tree.insert(
        "c".to_string(),
        ConfigValue::Table(leaf("  >&2 echo 'foo' \"$HOME\"\t")),
    );
    assert_eq!(
        resolve(&tree, &vec!["c"]).unwrap(),
        "  >&2 echo 'foo' \"$HOME\"\t"
    );
}

#[test]
fn resolve_without_command_names_the_missing_key() {
    let tree = basic_tree();
    match resolve(&tree, &vec!["s"]) {
        Err(CommandParseError::CommandContentInvalid(InvalidContentReason::MissingKey(key))) => {
            assert_eq!(key, "command")
        }
        other => panic!("expected a missing key, got {:?}", other),
    }
}

#[test]
fn resolve_with_a_command_that_is_no_string_names_key_and_value() {
    let tree = toml_to_map("[a]\ncommand = 7\n").unwrap();
    match resolve(&tree, &vec!["a"]) {
        Err(CommandParseError::CommandContentInvalid(InvalidContentReason::NotTomlString(
            key,
            ConfigValue::Integer,
        ))) => assert_eq!(key, "command"),
        other => panic!("expected a value of the wrong kind, got {:?}", other),
    }
}

#[test]
fn unknown_first_token_reports_the_whole_path() {
    let tree = basic_tree();
    assert_eq!(not_found(resolve(&tree, &vec!["dne", "c1"])), "dne c1");
    assert_eq!(not_found(resolve(&tree, &vec!["dne"])), "dne");
    assert_eq!(
        not_found(resolve(&tree, &vec!["foo", "bar", "baz"])),
        "foo bar baz"
    );
}

#[test]
fn unknown_later_token_reports_the_rest_of_the_path() {
    let tree = basic_tree();
    assert_eq!(not_found(resolve(&tree, &vec!["s", "dne"])), "dne");
    assert_eq!(
        not_found(resolve(&tree, &vec!["s", "c1", "bar", "baz"])),
        "bar baz"
    );
}

#[test]
fn tokens_behind_an_unknown_one_are_joined_even_if_they_name_entries() {
    let tree = basic_tree();
    assert_eq!(
        not_found(resolve(&tree, &vec!["s", "dne", "c1", "s"])),
        "dne c1 s"
    );
}

#[test]
fn unknown_tokens_are_joined_as_they_are() {
    let tree = basic_tree();
    assert_eq!(not_found(resolve(&tree, &vec!["", "a b", ""])), " a b ");
}

#[test]
fn a_value_that_is_no_table_stops_the_walk_at_once() {
    let tree = basic_tree();
    for tokens in [
        vec!["s", "desc"],
        vec!["s", "desc", "c1"],
        vec!["s", "desc", "dne", "more"],
    ] {
        match resolve(&tree, &tokens) {
            Err(CommandParseError::CommandContentInvalid(InvalidContentReason::NotTomlTable(
                key,
                ConfigValue::String(value),
            ))) => {
                assert_eq!(key, "desc");
                assert_eq!(value, "s desc");
            }
            other => panic!("expected a value that is no table, got {:?}", other),
        }
    }
}

#[test]
fn help_fails_as_resolve_does_on_the_way() {
    let tree = basic_tree();
    match resolve_help(&tree, &vec!["dne", "dne"]) {
        Err(CommandParseError::CommandNotFoundError(rest)) => assert_eq!(rest, "dne dne"),
        other => panic!("expected a command that is not found, got {:?}", other),
    }
    match resolve_help(&tree, &vec!["s", "dne"]) {
        Err(CommandParseError::CommandNotFoundError(rest)) => assert_eq!(rest, "dne"),
        other => panic!("expected a command that is not found, got {:?}", other),
    }
    match resolve_help(&tree, &vec!["s", "desc", "x"]) {
        Err(CommandParseError::CommandContentInvalid(InvalidContentReason::NotTomlTable(
            key,
            ConfigValue::String(_),
        ))) => assert_eq!(key, "desc"),
        other => panic!("expected a value that is no table, got {:?}", other),
    }
}

#[test]
fn help_lists_the_node_and_then_its_children() {
    let tree = basic_tree();
    let listed = resolve_help(&tree, &vec!["s"]).unwrap();
    assert_eq!(
        pairs_of(&listed),
        vec![
            (None, Some("s desc")),
            (Some("c1"), Some("c1 desc")),
            (Some("c2"), None),
        ]
    );
}

#[test]
fn help_on_a_leaf_is_its_own_line_alone() {
    let tree = basic_tree();
    let listed = resolve_help(&tree, &vec!["s", "c1"]).unwrap();
    assert_eq!(pairs_of(&listed), vec![(None, Some("c1 desc"))]);
    let listed = resolve_help(&tree, &vec!["s", "c2"]).unwrap();
    assert_eq!(pairs_of(&listed), vec![(None, None)]);
}

#[test]
fn help_needs_no_command() {
    let tree = toml_to_map("[only]\n").unwrap();
    let listed = resolve_help(&tree, &vec!["only"]).unwrap();
    assert_eq!(pairs_of(&listed), vec![(None, None)]);
}

#[test]
fn help_keeps_the_order_of_the_entries() {
    let tree = toml_to_map(
        "[s]\nzeta = { desc = \"z\" }\nalpha = { desc = \"a\" }\nmid = { }\n",
    )
    .unwrap();
    let listed = resolve_help(&tree, &vec!["s"]).unwrap();
    assert_eq!(
        pairs_of(&listed),
        vec![
            (None, None),
            (Some("zeta"), Some("z")),
            (Some("alpha"), Some("a")),
            (Some("mid"), None),
        ]
    );
}

#[test]
fn help_lists_entries_of_every_kind_but_desc_and_command() {
    let tree = toml_to_map(
        "[s]\ncommand = { }\nn = 3\ndesc = 4\nlist = [1]\nsub = { desc = 5 }\n",
    )
    .unwrap();
    let listed = resolve_help(&tree, &vec!["s"]).unwrap();
    assert_eq!(
        pairs_of(&listed),
        vec![
            (None, None),
            (Some("n"), None),
            (Some("list"), None),
            (Some("sub"), None),
        ]
    );
}

#[test]
fn help_with_no_token_lists_the_root() {
    let tree = basic_tree();
    let listed = resolve_help(&tree, &vec![]).unwrap();
    assert_eq!(pairs_of(&listed), vec![(None, None), (Some("s"), Some("s desc"))]);
}

#[test]
fn asking_twice_gives_the_same() {
    let tree = basic_tree();
    for tokens in [vec!["s", "c1"], vec!["s"], vec!["s", "dne", "x"], vec!["s", "desc"]] {
        let first = format!("{:?}", resolve(&tree, &tokens));
        let second = format!("{:?}", resolve(&tree, &tokens));
        assert_eq!(first, second);
        let first = format!("{:?}", resolve_help(&tree, &tokens));
        let second = format!("{:?}", resolve_help(&tree, &tokens));
        assert_eq!(first, second);
    }
    assert_eq!(
        format!("{:?}", tree),
        format!("{:?}", basic_tree())
    );
}

#[test]
fn a_command_may_hold_subcommands() {
    let tree = toml_to_map(
        "[run]\ncommand = \"make\"\ndesc = \"build\"\n[run.fast]\ncommand = \"make -j\"\n",
    )
    .unwrap();
    assert_eq!(resolve(&tree, &vec!["run"]).unwrap(), "make");
    assert_eq!(resolve(&tree, &vec!["run", "fast"]).unwrap(), "make -j");
    let listed = resolve_help(&tree, &vec!["run"]).unwrap();
    assert_eq!(
        pairs_of(&listed),
        vec![(None, Some("build")), (Some("fast"), None)]
    );
}

#[test]
fn locate_hands_out_the_table_at_the_end_of_the_path() {
    let tree = basic_tree();
    let node = locate(&tree, &vec!["s", "c1"]).unwrap();
    assert_eq!(node.len(), 2);
    assert_eq!(node.get("command").unwrap().as_str(), Some("echo c1 ran"));
    let root = locate(&tree, &vec![]).unwrap();
    assert_eq!(root.len(), 1);
    assert!(root.get("s").unwrap().as_table().is_some());
}

#[test]
fn a_table_by_hand_resolves_as_a_parsed_one() {
    let mut s = ConfigTable::new();
    s.insert("desc".to_string(), text("s desc"));
    let mut c1 = leaf("echo c1 ran");
    c1.insert("desc".to_string(), text("c1 desc"));
    s.insert("c1".to_string(), ConfigValue::Table(c1));
    s.insert("c2".to_string(), ConfigValue::Table(leaf("echo c2 ran")));
    let mut tree = ConfigTable::new();
    tree.insert("s".to_string(), ConfigValue::Table(s));
    assert_eq!(format!("{:?}", tree), format!("{:?}", basic_tree()));
    assert_eq!(resolve(&tree, &vec!["s", "c1"]).unwrap(), "echo c1 ran");
    let listed = resolve_help(&tree, &vec!["s"]).unwrap();
    assert_eq!(
        pairs_of(&listed),
        vec![
            (None, Some("s desc")),
            (Some("c1"), Some("c1 desc")),
            (Some("c2"), None),
        ]
    );
}

#[test]
fn the_parts_of_a_resolution_on_one_table() {
    let tree = basic_tree();
    let s = locate(&tree, &vec!["s"]).unwrap();
    assert_eq!(description(s), Some("s desc".to_string()));
    assert!(command_line(s).is_err());
    assert_eq!(help_pairs(s).len(), 3);
    let c2 = locate(&tree, &vec!["s", "c2"]).unwrap();
    assert_eq!(description(c2), None);
    assert_eq!(command_line(c2).unwrap(), "echo c2 ran");
    assert_eq!(help_pairs(c2).len(), 1);
}
