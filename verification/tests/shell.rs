use srun::shell::{
    exit_code, has_suffix, runs_interactive, shell_arguments, DEFAULT_SHELL,
    PASSTHROUGH_EXIT_CODE, SIGNAL_EXIT_BASE,
};

#[test]
fn the_constants_of_a_run() {
    assert_eq!(DEFAULT_SHELL, "sh");
    assert_eq!(PASSTHROUGH_EXIT_CODE, 125);
    assert_eq!(SIGNAL_EXIT_BASE, 128);
}

#[test]
fn the_exit_status_of_the_command_is_handed_on() {
    assert_eq!(exit_code(Some(42), None), 42);
    assert_eq!(exit_code(Some(0), None), 0);
    assert_eq!(exit_code(Some(1), Some(9)), 1);
    assert_eq!(exit_code(Some(-1), None), -1);
}

#[test]
fn a_signal_is_raised_by_128() {
    assert_eq!(exit_code(None, Some(15)), 15 + 128);
    assert_eq!(exit_code(None, Some(9)), 137);
    assert_eq!(exit_code(None, Some(0)), 128);
    assert_eq!(exit_code(None, Some(i32::MAX - 128)), i32::MAX);
}

#[test]
fn a_suffix_is_found_at_the_end_only() {
    assert!(has_suffix("/bin/bash", "bash"));
    assert!(has_suffix("bash", "bash"));
    assert!(has_suffix("bash", ""));
    assert!(has_suffix("", ""));
    assert!(!has_suffix("ash", "bash"));
    assert!(!has_suffix("bash ", "bash"));
    assert!(!has_suffix("/bin/bash/x", "bash"));
    assert!(!has_suffix("", "sh"));
    assert!(has_suffix("/opt/sch\u{e4}le/f\u{ef}sh", "f\u{ef}sh"));
    assert!(!has_suffix("/opt/sch\u{e4}le/f\u{ef}sh", "fish"));
}

#[test]
fn bash_zsh_and_fish_run_interactive() {
    for shell in ["bash", "/bin/bash", "/usr/bin/zsh", "zsh", "/usr/local/bin/fish", "rbash"] {
        assert!(runs_interactive(shell), "{}", shell);
    }
    for shell in ["sh", "/bin/sh", "/bin/dash", "ksh", "", "bash.exe", "/bin/bash/", "FISH"] {
        assert!(!runs_interactive(shell), "{}", shell);
    }
}

#[test]
fn a_shell_gets_the_command_line_behind_c() {
    assert_eq!(shell_arguments("sh", "echo hi"), vec!["-c", "echo hi"]);
    assert_eq!(
        shell_arguments("/bin/bash", "exit 42"),
        vec!["-i", "-c", "exit 42"]
    );
    assert_eq!(shell_arguments("/bin/zsh", ""), vec!["-i", "-c", ""]);
    assert_eq!(
        shell_arguments("fish", "kill -s TERM $$"),
        vec!["-i", "-c", "kill -s TERM $$"]
    );
}
