use simple_shell::dispatch::{
    cd_error_message, handle_line, is_builtin, not_found_message, output_chunk,
    pwd_error_message, type_found_message, Action,
};
use simple_shell::env::Env;
use simple_shell::path::{join_path, path_candidates, split_search_path};

fn env_of(pairs: &[(&str, &str)]) -> Env {
    Env::new(
        pairs
            .iter()
            .map(|(n, v)| (n.to_string(), v.to_string()))
            .collect(),
    )
}

#[test]
fn type_of_builtin_answers_directly() {
    match handle_line("type cd", &env_of(&[])) {
        Action::Reply { text } => assert_eq!(text, "cd is a shell builtin"),
        _ => panic!("expected a reply"),
    }
}

#[test]
fn type_of_external_resolves_over_path() {
    match handle_line("type ls", &env_of(&[("PATH", "/dir")])) {
        Action::ResolveType { name, candidates } => {
            assert_eq!(name, "ls");
            assert_eq!(candidates, vec!["/dir/ls".to_string()]);
            assert_eq!(type_found_message(&name, &candidates[0]), "ls is /dir/ls");
        }
        _ => panic!("expected a type resolution"),
    }
}

#[test]
fn cd_to_missing_directory_is_not_fatal() {
    let action = handle_line("cd /nonexistent", &env_of(&[]));
    match &action {
        Action::ChangeDir {
            target,
            home_default,
        } => {
            assert_eq!(target, "/nonexistent");
            assert!(!home_default);
        }
        _ => panic!("expected a directory change"),
    }
    assert!(!matches!(action, Action::Exit | Action::FatalNoHome));
    assert_eq!(
        cd_error_message("/nonexistent", false, "No such file or directory"),
        "cd: /nonexistent: No such file or directory"
    );
}

#[test]
fn exit_with_argument_seven_is_not_found() {
    match handle_line("exit 7", &env_of(&[])) {
        Action::Reply { text } => assert_eq!(text, "exit 7: command not found"),
        _ => panic!("expected a reply, not termination"),
    }
}

#[test]
fn bare_exit_and_exit_zero_terminate() {
    assert!(matches!(handle_line("exit", &env_of(&[])), Action::Exit));
    assert!(matches!(handle_line("exit 0", &env_of(&[])), Action::Exit));
    assert!(matches!(
        handle_line("  exit  ", &env_of(&[])),
        Action::Exit
    ));
}

#[test]
fn empty_and_whitespace_lines_are_silent() {
    assert!(matches!(handle_line("", &env_of(&[])), Action::Silent));
    assert!(matches!(handle_line("   \n", &env_of(&[])), Action::Silent));
}

#[test]
fn external_command_carries_args_and_candidates() {
    match handle_line("grep -r needle", &env_of(&[("PATH", "/a:/b")])) {
        Action::RunExternal {
            name,
            args,
            candidates,
        } => {
            assert_eq!(name, "grep");
            assert_eq!(args, vec!["-r".to_string(), "needle".to_string()]);
            assert_eq!(
                candidates,
                vec!["/a/grep".to_string(), "/b/grep".to_string()]
            );
        }
        _ => panic!("expected an external run"),
    }
}

#[test]
fn unset_path_yields_one_bare_candidate() {
    match handle_line("prog", &env_of(&[])) {
        Action::RunExternal { candidates, .. } => {
            assert_eq!(candidates, vec!["prog".to_string()]);
        }
        _ => panic!("expected an external run"),
    }
}

#[test]
fn pwd_asks_for_the_working_directory() {
    assert!(matches!(handle_line("pwd", &env_of(&[])), Action::ShowCwd));
}

#[test]
fn bare_cd_uses_home_with_its_own_failure_wording() {
    match handle_line("cd", &env_of(&[("HOME", "/home/u")])) {
        Action::ChangeDir {
            target,
            home_default,
        } => {
            assert_eq!(target, "/home/u");
            assert!(home_default);
            assert_eq!(
                cd_error_message(&target, home_default, "denied"),
                "cd: invalid home directory: denied"
            );
        }
        _ => panic!("expected a directory change"),
    }
}

#[test]
fn cd_tilde_uses_home_with_plain_failure_wording() {
    match handle_line("cd ~", &env_of(&[("HOME", "/home/u")])) {
        Action::ChangeDir {
            target,
            home_default,
        } => {
            assert_eq!(target, "/home/u");
            assert!(!home_default);
        }
        _ => panic!("expected a directory change"),
    }
}

#[test]
fn cd_without_home_is_fatal_bare_and_tilde() {
    assert!(matches!(
        handle_line("cd", &env_of(&[])),
        Action::FatalNoHome
    ));
    assert!(matches!(
        handle_line("cd ~", &env_of(&[])),
        Action::FatalNoHome
    ));
}

#[test]
fn builtin_registry_is_the_fixed_six() {
    for name in ["exit", "version", "echo", "type", "pwd", "cd"] {
        assert!(is_builtin(name));
    }
    assert!(!is_builtin("ls"));
    assert!(!is_builtin(""));
    assert!(!is_builtin("exit0"));
}

#[test]
fn search_path_preserves_empty_entries() {
    let dirs = split_search_path("/a::/b/");
    assert_eq!(
        dirs,
        vec!["/a".to_string(), "".to_string(), "/b/".to_string()]
    );
    let candidates = path_candidates("/a::/b/", "x");
    assert_eq!(
        candidates,
        vec!["/a/x".to_string(), "x".to_string(), "/b/x".to_string()]
    );
}

#[test]
fn empty_search_path_is_one_empty_entry() {
    assert_eq!(split_search_path(""), vec!["".to_string()]);
}

#[test]
fn join_path_handles_slashes_and_absolutes() {
    assert_eq!(join_path("/a", "x"), "/a/x");
    assert_eq!(join_path("/a/", "x"), "/a/x");
    assert_eq!(join_path("", "x"), "x");
    assert_eq!(join_path("/a", "/abs/x"), "/abs/x");
}

#[test]
fn env_lookup_distinguishes_unset_from_empty() {
    let env = env_of(&[("EMPTY", "")]);
    assert_eq!(env.lookup("EMPTY"), Some("".to_string()));
    assert_eq!(env.lookup("MISSING"), None);
    assert_eq!(env.value("EMPTY"), "");
    assert_eq!(env.value("MISSING"), "");
}

#[test]
fn captured_output_gains_newline_only_when_missing() {
    assert_eq!(output_chunk(Vec::new()), Vec::<u8>::new());
    assert_eq!(output_chunk(b"abc".to_vec()), b"abc\n".to_vec());
    assert_eq!(output_chunk(b"abc\n".to_vec()), b"abc\n".to_vec());
}

#[test]
fn report_messages_have_the_dispatcher_wording() {
    assert_eq!(not_found_message("prog"), "prog: not found");
    assert_eq!(type_found_message("ls", "/bin/ls"), "ls is /bin/ls");
    assert_eq!(pwd_error_message("denied"), "pwd: denied");
}

#[test]
fn parse_failure_is_reported_not_fatal() {
    match handle_line("echo 'open", &env_of(&[])) {
        Action::Reply { text } => assert_eq!(text, "parse error: unclosed single quote"),
        _ => panic!("expected the parse error as a reply"),
    }
}

#[test]
fn echo_joins_arguments_with_single_spaces() {
    match handle_line("echo 'a  b'  c", &env_of(&[])) {
        Action::Reply { text } => assert_eq!(text, "a  b c"),
        _ => panic!("expected a reply"),
    }
}

#[test]
fn echo_without_arguments_reports_notice() {
    match handle_line("echo", &env_of(&[])) {
        Action::Reply { text } => assert_eq!(text, "echo: no arguments provided"),
        _ => panic!("expected a reply"),
    }
}

#[test]
fn type_with_two_arguments_is_a_usage_error() {
    match handle_line("type a b", &env_of(&[])) {
        Action::Reply { text } => assert_eq!(text, "type: expected exactly one argument"),
        _ => panic!("expected a reply"),
    }
}

#[test]
fn version_reports_the_fixed_string() {
    match handle_line("version ignored args", &env_of(&[])) {
        Action::Reply { text } => assert_eq!(text, "Simple Shell v0.1.0"),
        _ => panic!("expected a reply"),
    }
}
