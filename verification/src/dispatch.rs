//! The per-line command dispatcher.
//!
//! [`handle_line`] turns one raw input line into the action the
//! interpreter loop must perform: terminate, write a reply, do nothing,
//! probe the search path and run an external program, answer a `type`
//! query, show the working directory, change directory, or fail for a
//! missing `HOME`. The whole decision table is the specification
//! [`action_model`]; the loop around it only performs what the action
//! says.

use vstd::prelude::*;
use vstd::string::*;
use crate::env::Env;
use crate::path::{candidates_spec, path_candidates};
use crate::text::{join_spaces, join_spaces_spec, str_eq, trim_line, trim_spec};
use crate::token::{error_text, tokenize, tokenize_spec};

verus! {

/// What the interpreter loop must do for one input line.
pub enum Action {
    /// Terminate the loop, signalling success.
    Exit,
    /// Write this reply line, then continue.
    Reply { text: String },
    /// Nothing to do; continue.
    Silent,
    /// Probe the candidates in order; run the first existing one with
    /// the arguments, or report the name as not found.
    RunExternal { name: String, args: Vec<String>, candidates: Vec<String> },
    /// Probe the candidates in order; answer the `type` query with the
    /// first existing one, or report the name as not found.
    ResolveType { name: String, candidates: Vec<String> },
    /// Print the current working directory.
    ShowCwd,
    /// Change the working directory to `target`; `home_default` records
    /// that the target came from `HOME` with no argument given, which
    /// changes the failure message.
    ChangeDir { target: String, home_default: bool },
    /// A bare `cd` (or `cd ~`) found `HOME` unset: fatal for the whole
    /// interpreter, not just the command.
    FatalNoHome,
}

/// The mathematical shape of an [`Action`].
pub enum ActionModel {
    Exit,
    Reply { text: Seq<char> },
    Silent,
    RunExternal { name: Seq<char>, args: Seq<Seq<char>>, candidates: Seq<Seq<char>> },
    ResolveType { name: Seq<char>, candidates: Seq<Seq<char>> },
    ShowCwd,
    ChangeDir { target: Seq<char>, home_default: bool },
    FatalNoHome,
}

impl View for Action {
    type V = ActionModel;

    open spec fn view(&self) -> ActionModel {
        match self {
            Action::Exit => ActionModel::Exit,
            Action::Reply { text } => ActionModel::Reply { text: text@ },
            Action::Silent => ActionModel::Silent,
            Action::RunExternal { name, args, candidates } => ActionModel::RunExternal {
                name: name@,
                args: args.deep_view(),
                candidates: candidates.deep_view(),
            },
            Action::ResolveType { name, candidates } => ActionModel::ResolveType {
                name: name@,
                candidates: candidates.deep_view(),
            },
            Action::ShowCwd => ActionModel::ShowCwd,
            Action::ChangeDir { target, home_default } => ActionModel::ChangeDir {
                target: target@,
                home_default: *home_default,
            },
            Action::FatalNoHome => ActionModel::FatalNoHome,
        }
    }
}

/// The fixed builtin registry: the names the dispatcher handles itself,
/// which is also what `type` classifies as builtins.
pub open spec fn is_builtin_name(n: Seq<char>) -> bool {
    ||| n == "exit"@
    ||| n == "version"@
    ||| n == "echo"@
    ||| n == "type"@
    ||| n == "pwd"@
    ||| n == "cd"@
}

/// Whether `name` is in the builtin registry.
pub fn is_builtin(name: &str) -> (r: bool)
    ensures
        r == is_builtin_name(name@),
{
    str_eq(name, "exit") || str_eq(name, "version") || str_eq(name, "echo") || str_eq(
        name,
        "type",
    ) || str_eq(name, "pwd") || str_eq(name, "cd")
}

/// The decision the dispatcher owes for a `cd` with the given
/// arguments: directly to the one argument, to `HOME` for none or `~`,
/// fatally if `HOME` is then unset.
pub open spec fn cd_model(args: Seq<Seq<char>>, env: Env) -> ActionModel {
    if args.len() == 0 {
        match env.lookup_model("HOME"@) {
            Option::None => ActionModel::FatalNoHome,
            Option::Some(h) => ActionModel::ChangeDir { target: h, home_default: true },
        }
    } else if args.len() > 1 {
        ActionModel::Reply { text: "cd: too many arguments"@ }
    } else if args[0] == "~"@ {
        match env.lookup_model("HOME"@) {
            Option::None => ActionModel::FatalNoHome,
            Option::Some(h) => ActionModel::ChangeDir { target: h, home_default: false },
        }
    } else {
        ActionModel::ChangeDir { target: args[0], home_default: false }
    }
}

/// The decision the dispatcher owes for a `type` query.
pub open spec fn type_model(args: Seq<Seq<char>>, env: Env) -> ActionModel {
    if args.len() == 0 {
        ActionModel::Reply { text: "type: no arguments provided"@ }
    } else if args.len() != 1 {
        ActionModel::Reply { text: "type: expected exactly one argument"@ }
    } else if is_builtin_name(args[0]) {
        ActionModel::Reply { text: args[0] + " is a shell builtin"@ }
    } else {
        ActionModel::ResolveType {
            name: args[0],
            candidates: candidates_spec(env.value_model("PATH"@), args[0]),
        }
    }
}

/// The dispatcher's whole decision table: what one raw input line asks
/// of the interpreter. The line is trimmed and tokenized; a parse
/// failure is reported and never fatal; an empty command is a no-op;
/// `exit` terminates only bare or with the single argument `0`, any
/// other form reporting the whole line as not found; and a non-builtin
/// name is resolved against `PATH`.
pub open spec fn action_model(line: Seq<char>, env: Env) -> ActionModel {
    let t = trim_spec(line);
    if t.len() == 0 {
        ActionModel::Silent
    } else {
        match tokenize_spec(t, env) {
            Result::Err(e) => ActionModel::Reply { text: error_text(e) },
            Result::Ok(m) => {
                if m.name.len() == 0 {
                    ActionModel::Silent
                } else if m.name == "exit"@ {
                    if m.args.len() == 0 || (m.args.len() == 1 && m.args[0] == "0"@) {
                        ActionModel::Exit
                    } else {
                        ActionModel::Reply { text: t + ": command not found"@ }
                    }
                } else if m.name == "version"@ {
                    ActionModel::Reply { text: "Simple Shell v0.1.0"@ }
                } else if m.name == "echo"@ {
                    if m.args.len() == 0 {
                        ActionModel::Reply { text: "echo: no arguments provided"@ }
                    } else {
                        ActionModel::Reply { text: join_spaces_spec(m.args) }
                    }
                } else if m.name == "type"@ {
                    type_model(m.args, env)
                } else if m.name == "pwd"@ {
                    ActionModel::ShowCwd
                } else if m.name == "cd"@ {
                    cd_model(m.args, env)
                } else {
                    ActionModel::RunExternal {
                        name: m.name,
                        args: m.args,
                        candidates: candidates_spec(env.value_model("PATH"@), m.name),
                    }
                }
            },
        }
    }
}

/// Decide one raw input line: exactly what [`action_model`] says of it.
pub fn handle_line(line: &str, env: &Env) -> (r: Action)
    ensures
        r@ == action_model(line@, *env),
{
    let trimmed = trim_line(line);
    if trimmed.is_empty() {
        return Action::Silent;
    }
    let cmd = match tokenize(trimmed, env) {
        Result::Err(e) => {
            return Action::Reply { text: e.message() };
        },
        Result::Ok(c) => c,
    };
    if cmd.name.as_str().is_empty() {
        Action::Silent
    } else if str_eq(cmd.name.as_str(), "exit") {
        if cmd.args.len() == 0 || (cmd.args.len() == 1 && str_eq(cmd.args[0].as_str(), "0")) {
            Action::Exit
        } else {
            let mut text = trimmed.to_owned();
            text.append(": command not found");
            Action::Reply { text }
        }
    } else if str_eq(cmd.name.as_str(), "version") {
        Action::Reply { text: String::from_str("Simple Shell v0.1.0") }
    } else if str_eq(cmd.name.as_str(), "echo") {
        if cmd.args.len() == 0 {
            Action::Reply { text: String::from_str("echo: no arguments provided") }
        } else {
            Action::Reply { text: join_spaces(&cmd.args) }
        }
    } else if str_eq(cmd.name.as_str(), "type") {
        if cmd.args.len() == 0 {
            Action::Reply { text: String::from_str("type: no arguments provided") }
        } else if cmd.args.len() != 1 {
            Action::Reply { text: String::from_str("type: expected exactly one argument") }
        } else if is_builtin(cmd.args[0].as_str()) {
            let mut text = cmd.args[0].clone();
            text.append(" is a shell builtin");
            Action::Reply { text }
        } else {
            let path_value = env.value("PATH");
            let candidates = path_candidates(path_value.as_str(), cmd.args[0].as_str());
            let name = cmd.args[0].clone();
            Action::ResolveType { name, candidates }
        }
    } else if str_eq(cmd.name.as_str(), "pwd") {
        Action::ShowCwd
    } else if str_eq(cmd.name.as_str(), "cd") {
        if cmd.args.len() == 0 {
            match env.lookup("HOME") {
                Option::None => Action::FatalNoHome,
                Option::Some(h) => Action::ChangeDir { target: h, home_default: true },
            }
        } else if cmd.args.len() > 1 {
            Action::Reply { text: String::from_str("cd: too many arguments") }
        } else if str_eq(cmd.args[0].as_str(), "~") {
            match env.lookup("HOME") {
                Option::None => Action::FatalNoHome,
                Option::Some(h) => Action::ChangeDir { target: h, home_default: false },
            }
        } else {
            Action::ChangeDir { target: cmd.args[0].clone(), home_default: false }
        }
    } else {
        let path_value = env.value("PATH");
        let candidates = path_candidates(path_value.as_str(), cmd.name.as_str());
        Action::RunExternal { name: cmd.name, args: cmd.args, candidates }
    }
}

/// The report for a name that resolved to no existing candidate.
pub fn not_found_message(name: &str) -> (r: String)
    ensures
        r@ == name@ + ": not found"@,
{
    let mut r = name.to_owned();
    r.append(": not found");
    r
}

/// The answer to a `type` query that resolved on the search path.
pub fn type_found_message(name: &str, path: &str) -> (r: String)
    ensures
        r@ == name@ + " is "@ + path@,
{
    let mut r = name.to_owned();
    r.append(" is ");
    r.append(path);
    proof {
        assert(r@ =~= name@ + " is "@ + path@);
    }
    r
}

/// The report for a directory change that the system refused, worded
/// as the dispatcher words it: a failed default change to `HOME` blames
/// the home directory, any other failure names the target.
pub fn cd_error_message(target: &str, home_default: bool, err: &str) -> (r: String)
    ensures
        r@ == if home_default {
            "cd: invalid home directory: "@ + err@
        } else {
            "cd: "@ + target@ + ": "@ + err@
        },
{
    if home_default {
        let mut r = String::from_str("cd: invalid home directory: ");
        r.append(err);
        r
    } else {
        let mut r = String::from_str("cd: ");
        r.append(target);
        r.append(": ");
        r.append(err);
        proof {
            assert(r@ =~= "cd: "@ + target@ + ": "@ + err@);
        }
        r
    }
}

/// The report for a working-directory query the system refused.
pub fn pwd_error_message(err: &str) -> (r: String)
    ensures
        r@ == "pwd: "@ + err@,
{
    let mut r = String::from_str("pwd: ");
    r.append(err);
    r
}

/// Captured output followed by a newline unless it already ends in
/// one; empty output stays empty (and is not written at all).
pub open spec fn chunk_spec(bytes: Seq<u8>) -> Seq<u8> {
    if bytes.len() == 0 {
        bytes
    } else if bytes.last() == 10u8 {
        bytes
    } else {
        bytes.push(10u8)
    }
}

/// Prepare one captured output stream (stdout or stderr of a child
/// process) for writing: append the newline byte if the output is
/// non-empty and does not already end in one.
pub fn output_chunk(bytes: Vec<u8>) -> (r: Vec<u8>)
    ensures
        r@ == chunk_spec(bytes@),
{
    let mut r = bytes;
    if r.len() > 0 && r[r.len() - 1] != 10u8 {
        r.push(10u8);
    }
    r
}

} // verus!
