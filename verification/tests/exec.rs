use srun::command_parser::get_command;
use srun::error::{error_line, CommandParseError};
use srun::shell::{exit_code, shell_arguments};

const BASIC_TOML_COMMAND_DATA: &str = r#"
    [s]
    desc = "s desc"
    c1 = { command = "echo c1 ran", desc = "c1 desc" }
    c2 = { command = "echo c2 ran" }
"#;

fn command_line(config: &str, arg_str: &str) -> Result<String, CommandParseError> {
    get_command(config, &arg_str.split_whitespace().collect())
}

#[test]
fn test_exec_success() {
    assert_eq!(
        command_line(BASIC_TOML_COMMAND_DATA, "s c1").unwrap(),
        "echo c1 ran"
    );
}

#[test]
fn test_exec_passthrough_stderr() {
    let toml_command_data = r#"c = { command = ">&2 echo 'foo'" }"#;
    let line = command_line(toml_command_data, "c").unwrap();
    assert_eq!(line, ">&2 echo 'foo'");
    assert_eq!(shell_arguments("sh", &line), vec!["-c", ">&2 echo 'foo'"]);
    assert_eq!(exit_code(Some(0), None), 0);
}

#[test]
fn test_exec_passthrough_ret_code() {
    let toml_command_data = r#"c = { command = "exit 42" }"#;
    let line = command_line(toml_command_data, "c").unwrap();
    assert_eq!(line, "exit 42");
    assert_eq!(shell_arguments("sh", &line), vec!["-c", "exit 42"]);
    assert_eq!(exit_code(Some(42), None), 42);
}

#[test]
fn test_exec_passthrough_signal() {
    let toml_command_data = r#"c = { command = "kill -s TERM $$" }"#;
    let line = command_line(toml_command_data, "c").unwrap();
    assert_eq!(line, "kill -s TERM $$");
    assert_eq!(
        shell_arguments("/bin/bash", &line),
        vec!["-i", "-c", "kill -s TERM $$"]
    );
    assert_eq!(exit_code(None, Some(15)), 15 + 128);
}

#[test]
fn test_exec_passthrough_stdin() {
    let toml_command_data = r#"c = { command = "read line; echo $line" }"#;
    let line = command_line(toml_command_data, "c").unwrap();
    assert_eq!(line, "read line; echo $line");
    assert_eq!(
        shell_arguments("sh", &line),
        vec!["-c", "read line; echo $line"]
    );
}

#[test]
fn a_path_that_is_not_found_ends_the_run_with_one_line() {
    let error = command_line(BASIC_TOML_COMMAND_DATA, "dne c1").unwrap_err();
    assert_eq!(error_line(&error), "Error: Command `dne c1` not found\n");
    let error = command_line(BASIC_TOML_COMMAND_DATA, "s dne").unwrap_err();
    assert_eq!(error_line(&error), "Error: Command `dne` not found\n");
}

#[test]
fn a_table_without_the_next_name_reports_the_rest() {
    let config = "[foo]\ncommand = \"run foo\"\n";
    match command_line(config, "foo bar baz") {
        Err(CommandParseError::CommandNotFoundError(rest)) => assert_eq!(rest, "bar baz"),
        other => panic!("expected a command that is not found, got {:?}", other),
    }
}
