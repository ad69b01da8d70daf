use simple_shell::env::Env;
use simple_shell::token::{parse_input, tokenize, ParseError};

fn env_of(pairs: &[(&str, &str)]) -> Env {
    Env::new(
        pairs
            .iter()
            .map(|(n, v)| (n.to_string(), v.to_string()))
            .collect(),
    )
}

fn empty_env() -> Env {
    env_of(&[])
}

#[test]
fn quoted_argument_keeps_spaces() {
    let c = tokenize("echo 'a b' c", &empty_env()).unwrap();
    assert_eq!(c.name, "echo");
    assert_eq!(c.args, vec!["a b".to_string(), "c".to_string()]);
}

#[test]
fn adjacent_quotes_concatenate() {
    let c = tokenize("echo 'x''y'", &empty_env()).unwrap();
    assert_eq!(c.name, "echo");
    assert_eq!(c.args, vec!["xy".to_string()]);
}

#[test]
fn adjacent_quote_chain_concatenates() {
    let c = tokenize("echo 'example''script' shell''world", &empty_env()).unwrap();
    assert_eq!(
        c.args,
        vec!["examplescript".to_string(), "shellworld".to_string()]
    );
}

#[test]
fn unterminated_single_quote_fails() {
    let r = tokenize("echo 'unterminated", &empty_env());
    assert!(matches!(r, Err(ParseError::UnclosedSingleQuote)));
    assert_eq!(
        ParseError::UnclosedSingleQuote.message(),
        "parse error: unclosed single quote"
    );
}

#[test]
fn unterminated_double_quote_fails() {
    let r = tokenize("echo \"unterminated", &empty_env());
    assert!(matches!(r, Err(ParseError::UnclosedDoubleQuote)));
    assert_eq!(
        ParseError::UnclosedDoubleQuote.message(),
        "parse error: unclosed double quote"
    );
}

#[test]
fn trailing_backslash_fails() {
    let r = tokenize("echo abc\\", &empty_env());
    assert!(matches!(r, Err(ParseError::IncompleteEscape)));
    assert_eq!(
        ParseError::IncompleteEscape.message(),
        "parse error: incomplete escape sequence"
    );
}

#[test]
fn bad_escape_in_double_quotes_fails() {
    let r = tokenize("echo \"a\\qb\"", &empty_env());
    assert!(matches!(r, Err(ParseError::InvalidEscape)));
    assert_eq!(
        ParseError::InvalidEscape.message(),
        "parse error: invalid escape sequence"
    );
}

#[test]
fn escaped_dollar_in_double_quotes_is_literal() {
    let c = tokenize("echo \"va\\$lue\"", &env_of(&[("lue", "surprise")])).unwrap();
    assert_eq!(c.args, vec!["va$lue".to_string()]);
}

#[test]
fn double_quoted_variable_expands() {
    let c = tokenize("echo \"$HOME\"", &env_of(&[("HOME", "/x")])).unwrap();
    assert_eq!(c.args, vec!["/x".to_string()]);
}

#[test]
fn bare_variable_expands() {
    let c = tokenize("echo a$SUFFIX b", &env_of(&[("SUFFIX", "_1")])).unwrap();
    assert_eq!(c.args, vec!["a_1".to_string(), "b".to_string()]);
}

#[test]
fn unset_variable_expands_to_nothing() {
    let c = tokenize("echo a$UNSET b", &empty_env()).unwrap();
    assert_eq!(c.args, vec!["a".to_string(), "b".to_string()]);
}

#[test]
fn lone_unset_variable_leaves_empty_command() {
    let c = tokenize("$UNSET", &empty_env()).unwrap();
    assert_eq!(c.name, "");
    assert!(c.args.is_empty());
}

#[test]
fn single_quotes_suppress_expansion_and_escapes() {
    let c = tokenize("echo '$HOME\\n'", &env_of(&[("HOME", "/x")])).unwrap();
    assert_eq!(c.args, vec!["$HOME\\n".to_string()]);
}

#[test]
fn double_quote_escapes_map_as_documented() {
    let c = tokenize("echo \"a\\\\b\\\"c\\nd\"", &empty_env()).unwrap();
    assert_eq!(c.args, vec!["a\\b\"c\nd".to_string()]);
}

#[test]
fn dollar_without_identifier_is_literal() {
    let c = tokenize("echo a$ b $1", &empty_env()).unwrap();
    assert_eq!(c.args, vec!["a$".to_string(), "b".to_string(), "$1".to_string()]);
}

#[test]
fn variable_name_stops_at_non_identifier() {
    let c = tokenize("echo $A-tail", &env_of(&[("A", "v")])).unwrap();
    assert_eq!(c.args, vec!["v-tail".to_string()]);
}

#[test]
fn environment_lookup_takes_first_match() {
    let c = tokenize(
        "echo $A",
        &env_of(&[("A", "first"), ("A", "second")]),
    )
    .unwrap();
    assert_eq!(c.args, vec!["first".to_string()]);
}

#[test]
fn plain_line_splits_on_spaces() {
    let c = tokenize("ls -l  -a   x", &empty_env()).unwrap();
    assert_eq!(c.name, "ls");
    assert_eq!(
        c.args,
        vec!["-l".to_string(), "-a".to_string(), "x".to_string()]
    );
}

#[test]
fn echo_output_retokenizes_to_same_args() {
    let first = tokenize("echo alpha beta gamma", &empty_env()).unwrap();
    let printed = first.args.join(" ");
    let again = tokenize(&format!("echo {}", printed), &empty_env()).unwrap();
    assert_eq!(again.args, first.args);
}

#[test]
fn parse_input_trims_the_raw_line() {
    let (name, args) = parse_input("   echo hi  \n", &empty_env()).unwrap();
    assert_eq!(name, "echo");
    assert_eq!(args, vec!["hi".to_string()]);
}

#[test]
fn parse_input_reports_error_text() {
    let r = parse_input("echo 'open\n", &empty_env());
    assert_eq!(r.unwrap_err(), "parse error: unclosed single quote");
}

#[test]
fn blank_line_is_the_empty_command() {
    let (name, args) = parse_input("   \n", &empty_env()).unwrap();
    assert_eq!(name, "");
    assert!(args.is_empty());
}

#[test]
fn quoted_empty_string_flushes_a_token() {
    let c = tokenize("echo ''", &empty_env()).unwrap();
    assert_eq!(c.name, "echo");
    assert!(c.args.is_empty());
}

#[test]
fn backslash_inside_single_quotes_reopens_quoting() {
    // `'can\'t'`: the backslash is literal inside single quotes, so the
    // next quote closes the string, `t` follows unquoted, and the final
    // quote opens a string that never closes.
    let r = tokenize("echo 'can\\'t'", &empty_env());
    assert!(matches!(r, Err(ParseError::UnclosedSingleQuote)));
}

#[test]
fn unquoted_backslash_takes_next_literally() {
    let c = tokenize("echo a\\ b \\$HOME", &env_of(&[("HOME", "/x")])).unwrap();
    assert_eq!(c.args, vec!["a b".to_string(), "$HOME".to_string()]);
}
