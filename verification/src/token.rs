//! The input tokenizer: one raw line in, a command name and argument
//! list out, honoring shell-style quoting, escaping and variable
//! expansion.
//!
//! The meaning of a line is fixed by [`scan`], a specification-level
//! state machine over the line's characters: four quoting states, a
//! single left-to-right pass with one character of lookahead. The
//! executable [`tokenize`] is proved to return exactly what `scan`
//! says, and [`parse_input`] adds the leading/trailing trim.

use vstd::prelude::*;
use vstd::string::*;
use crate::env::Env;
use crate::text::{
    is_alnum,
    is_alpha,
    is_alphabetic_char,
    is_alphanumeric_char,
    push_char,
    trim_line,
    trim_spec,
};

verus! {

/// The tokenizer's quoting state. An escape remembers the state it
/// returns to: escapes are reachable from `Normal` and `InDoubleQuote`
/// only, never from `InSingleQuote`, where a backslash is literal.
#[derive(Clone, Copy)]
pub enum ScanMode {
    Normal,
    InSingleQuote,
    InDoubleQuote,
    EscFromNormal,
    EscFromDouble,
}

/// Why a line failed to parse.
#[derive(Clone, Copy, Debug, PartialEq, Eq, Structural)]
pub enum ParseError {
    UnclosedSingleQuote,
    UnclosedDoubleQuote,
    IncompleteEscape,
    InvalidEscape,
}

/// A tokenized line: the command name and its arguments. The name is
/// empty exactly when the line held no token at all; the dispatcher
/// treats that as "nothing to do".
pub struct Command {
    pub name: String,
    pub args: Vec<String>,
}

/// The mathematical shape of a tokenized line.
pub struct CommandModel {
    pub name: Seq<char>,
    pub args: Seq<Seq<char>>,
}

impl View for Command {
    type V = CommandModel;

    open spec fn view(&self) -> CommandModel {
        CommandModel { name: self.name@, args: self.args.deep_view() }
    }
}

/// The scanner's full state between two characters: the quoting mode,
/// the command name once flushed, the arguments flushed so far, and the
/// token accumulating now.
pub struct ScanState {
    pub mode: ScanMode,
    pub named: bool,
    pub cmd: Seq<char>,
    pub args: Seq<Seq<char>>,
    pub cur: Seq<char>,
}

/// The state the scanner starts a line in.
pub open spec fn init_state() -> ScanState {
    ScanState {
        mode: ScanMode::Normal,
        named: false,
        cmd: Seq::empty(),
        args: Seq::empty(),
        cur: Seq::empty(),
    }
}

/// Whether a character may continue a `$name` variable reference.
pub open spec fn is_ident_char(c: char) -> bool {
    is_alnum(c) || c == '_'
}

/// Whether a character may start a `$name` variable reference.
pub open spec fn is_ident_start(c: char) -> bool {
    is_alpha(c) || c == '_'
}

/// The number of leading identifier characters of `s`: the length of
/// the variable name a `$` in front of `s` refers to.
pub open spec fn ident_len(s: Seq<char>) -> nat
    decreases s.len(),
{
    if s.len() > 0 && is_ident_char(s[0]) {
        (ident_len(s.drop_first()) + 1) as nat
    } else {
        0
    }
}

/// A variable name never extends past the end of the text.
pub proof fn lemma_ident_len_le(s: Seq<char>)
    ensures
        ident_len(s) <= s.len(),
    decreases s.len(),
{
    if s.len() > 0 && is_ident_char(s[0]) {
        lemma_ident_len_le(s.drop_first());
    }
}

/// Flushing moves a non-empty accumulating token into the command name
/// (first flush) or onto the argument list; an empty accumulator
/// flushes to nothing, so runs of separators insert no empty tokens.
pub open spec fn flush(st: ScanState) -> ScanState {
    if st.cur.len() == 0 {
        st
    } else if !st.named {
        ScanState { mode: st.mode, named: true, cmd: st.cur, args: st.args, cur: Seq::empty() }
    } else {
        ScanState {
            mode: st.mode,
            named: st.named,
            cmd: st.cmd,
            args: st.args.push(st.cur),
            cur: Seq::empty(),
        }
    }
}

/// End-of-line reconciliation: a still-open quote or escape is a parse
/// failure; otherwise the last token is flushed, and a line that never
/// produced a token is the empty command, not an error.
pub open spec fn finish(st: ScanState) -> Result<CommandModel, ParseError> {
    match st.mode {
        ScanMode::InSingleQuote => Err(ParseError::UnclosedSingleQuote),
        ScanMode::InDoubleQuote => Err(ParseError::UnclosedDoubleQuote),
        ScanMode::EscFromNormal => Err(ParseError::IncompleteEscape),
        ScanMode::EscFromDouble => Err(ParseError::IncompleteEscape),
        ScanMode::Normal => {
            let f = flush(st);
            if f.cmd.len() == 0 {
                Ok(CommandModel { name: Seq::empty(), args: Seq::empty() })
            } else {
                Ok(CommandModel { name: f.cmd, args: f.args })
            }
        },
    }
}

/// One state with the quoting mode replaced.
pub open spec fn with_mode(st: ScanState, m: ScanMode) -> ScanState {
    ScanState { mode: m, named: st.named, cmd: st.cmd, args: st.args, cur: st.cur }
}

/// One state with text appended to the accumulating token.
pub open spec fn with_cur(st: ScanState, m: ScanMode, t: Seq<char>) -> ScanState {
    ScanState { mode: m, named: st.named, cmd: st.cmd, args: st.args, cur: st.cur + t }
}

/// The tokenizer state machine: what scanning the remaining text `s`
/// from state `st` under environment `env` yields.
///
/// In `Normal`, a space flushes, quotes and a backslash switch mode, a
/// `$` followed by an identifier start splices the variable's value
/// into the current token, and anything else is literal. Inside single
/// quotes everything is literal up to the closing quote; a quote
/// immediately following the closing quote is consumed and quoting
/// resumes, so adjacent quoted parts concatenate without a separator.
/// Inside double quotes, escapes are restricted to `\` `$` `"` `n`
/// (with `\n` a newline) and variables still expand. An unquoted
/// backslash takes the next character literally, whatever it is.
pub open spec fn scan(s: Seq<char>, env: Env, st: ScanState) -> Result<CommandModel, ParseError>
    decreases s.len(),
    via scan_decreases
{
    if s.len() == 0 {
        finish(st)
    } else {
        let c = s[0];
        let rest = s.drop_first();
        match st.mode {
            ScanMode::EscFromNormal => scan(rest, env, with_cur(st, ScanMode::Normal, seq![c])),
            ScanMode::EscFromDouble => {
                if c == '\\' || c == '$' || c == '"' {
                    scan(rest, env, with_cur(st, ScanMode::InDoubleQuote, seq![c]))
                } else if c == 'n' {
                    scan(rest, env, with_cur(st, ScanMode::InDoubleQuote, seq!['\n']))
                } else {
                    Err(ParseError::InvalidEscape)
                }
            },
            ScanMode::Normal => {
                if c == '\'' {
                    scan(rest, env, with_mode(st, ScanMode::InSingleQuote))
                } else if c == '"' {
                    scan(rest, env, with_mode(st, ScanMode::InDoubleQuote))
                } else if c == ' ' {
                    scan(rest, env, flush(st))
                } else if c == '\\' {
                    scan(rest, env, with_mode(st, ScanMode::EscFromNormal))
                } else if c == '$' && s.len() > 1 && is_ident_start(s[1]) {
                    let n = ident_len(rest);
                    let value = env.value_model(rest.take(n as int));
                    scan(s.skip(n as int + 1), env, with_cur(st, ScanMode::Normal, value))
                } else {
                    scan(rest, env, with_cur(st, ScanMode::Normal, seq![c]))
                }
            },
            ScanMode::InSingleQuote => {
                if c == '\'' {
                    if s.len() > 1 && s[1] == '\'' {
                        scan(s.skip(2), env, st)
                    } else {
                        scan(rest, env, with_mode(st, ScanMode::Normal))
                    }
                } else {
                    scan(rest, env, with_cur(st, ScanMode::InSingleQuote, seq![c]))
                }
            },
            ScanMode::InDoubleQuote => {
                if c == '"' {
                    scan(rest, env, with_mode(st, ScanMode::Normal))
                } else if c == '\\' {
                    scan(rest, env, with_mode(st, ScanMode::EscFromDouble))
                } else if c == '$' && s.len() > 1 && is_ident_start(s[1]) {
                    let n = ident_len(rest);
                    let value = env.value_model(rest.take(n as int));
                    scan(s.skip(n as int + 1), env, with_cur(st, ScanMode::InDoubleQuote, value))
                } else {
                    scan(rest, env, with_cur(st, ScanMode::InDoubleQuote, seq![c]))
                }
            },
        }
    }
}

#[via_fn]
proof fn scan_decreases(s: Seq<char>, env: Env, st: ScanState) {
    if s.len() > 0 {
        lemma_ident_len_le(s.drop_first());
    }
}

/// What tokenizing a whole (already trimmed) line yields.
pub open spec fn tokenize_spec(line: Seq<char>, env: Env) -> Result<CommandModel, ParseError> {
    scan(line, env, init_state())
}

/// What parsing a raw line yields: it is trimmed, then tokenized.
pub open spec fn parse_spec(input: Seq<char>, env: Env) -> Result<CommandModel, ParseError> {
    tokenize_spec(trim_spec(input), env)
}

/// The message reported for a parse failure.
pub open spec fn error_text(e: ParseError) -> Seq<char> {
    match e {
        ParseError::UnclosedSingleQuote => "parse error: unclosed single quote"@,
        ParseError::UnclosedDoubleQuote => "parse error: unclosed double quote"@,
        ParseError::IncompleteEscape => "parse error: incomplete escape sequence"@,
        ParseError::InvalidEscape => "parse error: invalid escape sequence"@,
    }
}

impl ParseError {
    /// The message reported for this parse failure.
    pub fn message(&self) -> (r: String)
        ensures
            r@ == error_text(*self),
    {
        match self {
            ParseError::UnclosedSingleQuote => String::from_str(
                "parse error: unclosed single quote",
            ),
            ParseError::UnclosedDoubleQuote => String::from_str(
                "parse error: unclosed double quote",
            ),
            ParseError::IncompleteEscape => String::from_str(
                "parse error: incomplete escape sequence",
            ),
            ParseError::InvalidEscape => String::from_str("parse error: invalid escape sequence"),
        }
    }
}

/// Tokenize one line, already trimmed: exactly what [`scan`] says of it.
pub fn tokenize(line: &str, env: &Env) -> (r: Result<Command, ParseError>)
    ensures
        match r {
            Ok(c) => tokenize_spec(line@, *env) == Result::<CommandModel, ParseError>::Ok(c@),
            Err(e) => tokenize_spec(line@, *env) == Result::<CommandModel, ParseError>::Err(e),
        },
{
    let len = line.unicode_len();
    let mut mode = ScanMode::Normal;
    let mut named = false;
    let mut cmd = String::new();
    let mut args: Vec<String> = Vec::new();
    let mut cur = String::new();
    let mut i: usize = 0;
    proof {
        assert(line@.skip(0) =~= line@);
        assert(args.deep_view() =~= Seq::<Seq<char>>::empty());
    }
    while i < len
        invariant
            0 <= i <= len,
            len == line@.len(),
            named ==> cmd@.len() > 0,
            !named ==> cmd@.len() == 0,
            scan(line@, *env, init_state()) == scan(
                line@.skip(i as int),
                *env,
                ScanState {
                    mode: mode,
                    named: named,
                    cmd: cmd@,
                    args: args.deep_view(),
                    cur: cur@,
                },
            ),
        decreases len - i,
    {
        let ghost pre = ScanState {
            mode: mode,
            named: named,
            cmd: cmd@,
            args: args.deep_view(),
            cur: cur@,
        };
        proof {
            assert(line@.skip(i as int).len() > 0);
            assert(line@.skip(i as int)[0] == line@[i as int]);
            assert(line@.skip(i as int).drop_first() =~= line@.skip(i as int + 1));
        }
        let c = line.get_char(i);
        match mode {
            ScanMode::EscFromNormal => {
                push_char(&mut cur, c);
                mode = ScanMode::Normal;
                i = i + 1;
            },
            ScanMode::EscFromDouble => {
                if c == '\\' || c == '$' || c == '"' {
                    push_char(&mut cur, c);
                    mode = ScanMode::InDoubleQuote;
                    i = i + 1;
                } else if c == 'n' {
                    push_char(&mut cur, '\n');
                    mode = ScanMode::InDoubleQuote;
                    i = i + 1;
                } else {
                    return Err(ParseError::InvalidEscape);
                }
            },
            ScanMode::Normal => {
                if c == '\'' {
                    mode = ScanMode::InSingleQuote;
                    i = i + 1;
                } else if c == '"' {
                    mode = ScanMode::InDoubleQuote;
                    i = i + 1;
                } else if c == ' ' {
                    if !cur.as_str().is_empty() {
                        if !named {
                            cmd = cur;
                            named = true;
                        } else {
                            args.push(cur);
                            proof {
                                assert(args.deep_view() =~= pre.args.push(pre.cur));
                            }
                        }
                        cur = String::new();
                    }
                    i = i + 1;
                } else if c == '\\' {
                    mode = ScanMode::EscFromNormal;
                    i = i + 1;
                } else if c == '$' && i + 1 < len && is_ident_start_at(line, i + 1) {
                    let ghost i0 = i as int;
                    i = expand_variable(line, env, i, &mut cur);
                    proof {
                        let n = ident_len(line@.skip(i0 + 1)) as int;
                        assert(line@.skip(i0)[1] == line@[i0 + 1]);
                        assert(line@.skip(i0).skip(n + 1) =~= line@.skip(i0 + n + 1));
                    }
                } else {
                    push_char(&mut cur, c);
                    i = i + 1;
                }
            },
            ScanMode::InSingleQuote => {
                if c == '\'' {
                    if i + 1 < len && line.get_char(i + 1) == '\'' {
                        proof {
                            assert(line@.skip(i as int).skip(2) =~= line@.skip(i as int + 2));
                            assert(line@.skip(i as int)[1] == line@[i as int + 1]);
                        }
                        i = i + 2;
                    } else {
                        mode = ScanMode::Normal;
                        i = i + 1;
                    }
                } else {
                    push_char(&mut cur, c);
                    i = i + 1;
                }
            },
            ScanMode::InDoubleQuote => {
                if c == '"' {
                    mode = ScanMode::Normal;
                    i = i + 1;
                } else if c == '\\' {
                    mode = ScanMode::EscFromDouble;
                    i = i + 1;
                } else if c == '$' && i + 1 < len && is_ident_start_at(line, i + 1) {
                    let ghost i0 = i as int;
                    i = expand_variable(line, env, i, &mut cur);
                    proof {
                        let n = ident_len(line@.skip(i0 + 1)) as int;
                        assert(line@.skip(i0)[1] == line@[i0 + 1]);
                        assert(line@.skip(i0).skip(n + 1) =~= line@.skip(i0 + n + 1));
                    }
                } else {
                    push_char(&mut cur, c);
                    i = i + 1;
                }
            },
        }
    }
    proof {
        assert(line@.skip(len as int) =~= Seq::<char>::empty());
    }
    match mode {
        ScanMode::InSingleQuote => Err(ParseError::UnclosedSingleQuote),
        ScanMode::InDoubleQuote => Err(ParseError::UnclosedDoubleQuote),
        ScanMode::EscFromNormal => Err(ParseError::IncompleteEscape),
        ScanMode::EscFromDouble => Err(ParseError::IncompleteEscape),
        ScanMode::Normal => {
            let ghost pre = ScanState {
                mode: mode,
                named: named,
                cmd: cmd@,
                args: args.deep_view(),
                cur: cur@,
            };
            if !cur.as_str().is_empty() {
                if !named {
                    cmd = cur;
                    named = true;
                } else {
                    args.push(cur);
                    proof {
                        assert(args.deep_view() =~= pre.args.push(pre.cur));
                    }
                }
            }
            if !named {
                let r = Command { name: String::new(), args: Vec::new() };
                proof {
                    assert(r@.args =~= Seq::<Seq<char>>::empty());
                }
                Ok(r)
            } else {
                Ok(Command { name: cmd, args })
            }
        },
    }
}

/// Whether the character at position `j` may start a variable name.
fn is_ident_start_at(line: &str, j: usize) -> (r: bool)
    requires
        j < line@.len(),
    ensures
        r == is_ident_start(line@[j as int]),
{
    let d = line.get_char(j);
    is_alphabetic_char(d) || d == '_'
}

/// Whether the character at position `j` may continue a variable name.
fn is_ident_char_at(line: &str, j: usize) -> (r: bool)
    requires
        j < line@.len(),
    ensures
        r == is_ident_char(line@[j as int]),
{
    let d = line.get_char(j);
    is_alphanumeric_char(d) || d == '_'
}

/// Splice a `$name` reference into the accumulating token: consume the
/// identifier after the `$` at position `i` and append the variable's
/// value. Returns the position of the first unconsumed character.
fn expand_variable(line: &str, env: &Env, i: usize, cur: &mut String) -> (j: usize)
    requires
        i < line@.len(),
        line@[i as int] == '$',
    ensures
        i < j <= line@.len(),
        j == i + 1 + ident_len(line@.skip(i as int + 1)),
        final(cur)@ == old(cur)@ + env.value_model(
            line@.skip(i as int + 1).take(ident_len(line@.skip(i as int + 1)) as int),
        ),
{
    let len = line.unicode_len();
    let mut j: usize = i + 1;
    proof {
        lemma_ident_len_le(line@.skip(i as int + 1));
    }
    while j < len && is_ident_char_at(line, j)
        invariant
            i + 1 <= j <= len,
            len == line@.len(),
            ident_len(line@.skip(i as int + 1)) == (j - i - 1) + ident_len(line@.skip(j as int)),
        decreases len - j,
    {
        proof {
            assert(line@.skip(j as int)[0] == line@[j as int]);
            assert(line@.skip(j as int).drop_first() =~= line@.skip(j as int + 1));
        }
        j = j + 1;
    }
    proof {
        if j < len {
            assert(line@.skip(j as int)[0] == line@[j as int]);
        }
        assert(ident_len(line@.skip(j as int)) == 0);
        assert(line@.subrange(i as int + 1, j as int) =~= line@.skip(i as int + 1).take(
            ident_len(line@.skip(i as int + 1)) as int,
        ));
    }
    let name = line.substring_char(i + 1, j);
    let value = env.value(name);
    cur.append(value.as_str());
    j
}

/// Parse one raw input line: trim it, then tokenize; a failure is
/// reported as its message text.
pub fn parse_input(input: &str, env: &Env) -> (r: Result<(String, Vec<String>), String>)
    ensures
        match r {
            Ok(p) => parse_spec(input@, *env) matches Ok(m) && p.0@ == m.name && p.1.deep_view()
                == m.args,
            Err(msg) => parse_spec(input@, *env) matches Err(e) && msg@ == error_text(e),
        },
{
    let trimmed = trim_line(input);
    match tokenize(trimmed, env) {
        Ok(c) => Ok((c.name, c.args)),
        Err(e) => Err(e.message()),
    }
}

} // verus!
