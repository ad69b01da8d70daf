//! General properties of the tokenizer, stated and proved once for all
//! inputs: on lines free of metacharacters the tokenizer is plain
//! whitespace splitting, and tokenizing what `echo` prints for such
//! arguments reproduces those arguments.

use vstd::prelude::*;
use crate::env::Env;
use crate::text::join_spaces_spec;
use crate::token::{
    flush,
    init_state,
    scan,
    tokenize_spec,
    CommandModel,
    ScanMode,
    ScanState,
    with_cur,
};

verus! {

/// A character with no tokenizer metacharacter role: not a quote, not
/// a backslash, not a variable reference.
pub open spec fn is_plain_char(c: char) -> bool {
    c != '\'' && c != '"' && c != '\\' && c != '$'
}

/// Whether every character of `s` is plain.
pub open spec fn all_plain(s: Seq<char>) -> bool {
    forall|i: int| 0 <= i < s.len() ==> is_plain_char(s[i])
}

/// Splitting `s` on runs of spaces, with `acc` the word accumulated so
/// far: the tokens of `acc + s` taking only spaces as separators.
pub open spec fn ws_tokens(acc: Seq<char>, s: Seq<char>) -> Seq<Seq<char>>
    decreases s.len(),
{
    if s.len() == 0 {
        if acc.len() == 0 {
            Seq::empty()
        } else {
            seq![acc]
        }
    } else if s[0] == ' ' {
        if acc.len() == 0 {
            ws_tokens(Seq::empty(), s.drop_first())
        } else {
            seq![acc] + ws_tokens(Seq::empty(), s.drop_first())
        }
    } else {
        ws_tokens(acc + seq![s[0]], s.drop_first())
    }
}

/// The maximal space-free words of `s`, in order, empties dropped:
/// plain whitespace splitting.
pub open spec fn ws_split(s: Seq<char>) -> Seq<Seq<char>> {
    ws_tokens(Seq::empty(), s)
}

/// How the scanner's final answer is put together from its flushed
/// part and the tokens still to come.
pub open spec fn assemble(st: ScanState, toks: Seq<Seq<char>>) -> CommandModel {
    if !st.named {
        if toks.len() == 0 {
            CommandModel { name: Seq::empty(), args: Seq::empty() }
        } else {
            CommandModel { name: toks[0], args: toks.drop_first() }
        }
    } else {
        CommandModel { name: st.cmd, args: st.args + toks }
    }
}

/// On plain text the scanner, from any normal-mode state, produces
/// exactly the whitespace tokens of the accumulator and the remaining
/// text, distributed over name and arguments.
proof fn lemma_scan_plain(s: Seq<char>, env: Env, st: ScanState)
    requires
        st.mode == ScanMode::Normal,
        all_plain(s),
        !st.named ==> st.cmd.len() == 0 && st.args.len() == 0,
        st.named ==> st.cmd.len() > 0,
    ensures
        scan(s, env, st) == Result::<CommandModel, crate::token::ParseError>::Ok(
            assemble(st, ws_tokens(st.cur, s)),
        ),
    decreases s.len(),
{
    if s.len() == 0 {
        if st.cur.len() == 0 {
            if st.named {
                assert(st.args + ws_tokens(st.cur, s) =~= st.args);
            }
        } else {
            if !st.named {
                assert(ws_tokens(st.cur, s) == seq![st.cur]);
                assert(seq![st.cur].drop_first() =~= Seq::<Seq<char>>::empty());
                assert(flush(st).args =~= Seq::<Seq<char>>::empty());
            } else {
                assert(st.args + seq![st.cur] =~= st.args.push(st.cur));
            }
        }
    } else {
        let c = s[0];
        let rest = s.drop_first();
        assert(is_plain_char(c));
        assert forall|i: int| 0 <= i < rest.len() implies is_plain_char(rest[i]) by {
            assert(rest[i] == s[i + 1]);
        }
        if c == ' ' {
            lemma_scan_plain(rest, env, flush(st));
            if st.cur.len() == 0 {
                assert(st.cur =~= Seq::<char>::empty());
            } else if !st.named {
                let toks = ws_tokens(Seq::empty(), rest);
                assert(ws_tokens(st.cur, s) == seq![st.cur] + toks);
                assert((seq![st.cur] + toks)[0] == st.cur);
                assert((seq![st.cur] + toks).drop_first() =~= toks);
                assert(st.args + toks =~= toks);
            } else {
                let toks = ws_tokens(Seq::empty(), rest);
                assert(ws_tokens(st.cur, s) == seq![st.cur] + toks);
                assert(st.args + (seq![st.cur] + toks) =~= st.args.push(st.cur) + toks);
            }
        } else {
            let st2 = with_cur(st, ScanMode::Normal, seq![c]);
            lemma_scan_plain(rest, env, st2);
            assert(ws_tokens(st.cur, s) == ws_tokens(st.cur + seq![c], rest));
        }
    }
}

/// On a line with no quote, escape or variable metacharacter,
/// tokenization is whitespace splitting: the first word is the command
/// name and the remaining words are the arguments, and such a line
/// never fails to parse.
pub proof fn lemma_plain_line_splits(line: Seq<char>, env: Env)
    requires
        all_plain(line),
    ensures
        tokenize_spec(line, env) matches Ok(m) && {
            let toks = ws_split(line);
            if toks.len() == 0 {
                m.name.len() == 0 && m.args.len() == 0
            } else {
                m.name == toks[0] && m.args == toks.drop_first()
            }
        },
{
    lemma_scan_plain(line, env, init_state());
}

/// `ws_tokens` swallows a space-free word whole into the accumulator.
proof fn lemma_ws_tokens_word(acc: Seq<char>, w: Seq<char>, rest: Seq<char>)
    requires
        forall|i: int| 0 <= i < w.len() ==> w[i] != ' ',
    ensures
        ws_tokens(acc, w + rest) == ws_tokens(acc + w, rest),
    decreases w.len(),
{
    if w.len() == 0 {
        assert(w + rest =~= rest);
        assert(acc + w =~= acc);
    } else {
        assert((w + rest)[0] == w[0]);
        assert((w + rest).drop_first() =~= w.drop_first() + rest);
        assert(acc + seq![w[0]] + w.drop_first() =~= acc + w);
        assert forall|i: int| 0 <= i < w.drop_first().len() implies w.drop_first()[i] != ' ' by {
            assert(w.drop_first()[i] == w[i + 1]);
        }
        lemma_ws_tokens_word(acc + seq![w[0]], w.drop_first(), rest);
    }
}

/// Splitting the space-joined text of non-empty, space-free words
/// gives back exactly those words.
proof fn lemma_ws_split_join(args: Seq<Seq<char>>)
    requires
        args.len() > 0,
        forall|i: int| 0 <= i < args.len() ==> (#[trigger] args[i]).len() > 0,
        forall|i: int, j: int|
            0 <= i < args.len() && 0 <= j < args[i].len() ==> (#[trigger] args[i][j]) != ' ',
    ensures
        ws_tokens(Seq::empty(), join_spaces_spec(args)) == args,
    decreases args.len(),
{
    if args.len() == 1 {
        let w = args[0];
        assert(w + Seq::<char>::empty() =~= w);
        lemma_ws_tokens_word(Seq::empty(), w, Seq::empty());
        assert(Seq::<char>::empty() + w =~= w);
        assert(ws_tokens(Seq::empty(), join_spaces_spec(args)) == seq![w]);
        assert(seq![w] =~= args);
    } else {
        let w = args[0];
        let tail = args.drop_first();
        let joined_tail = join_spaces_spec(tail);
        assert(join_spaces_spec(args) == w + seq![' '] + joined_tail);
        assert(w + seq![' '] + joined_tail =~= w + (seq![' '] + joined_tail));
        lemma_ws_tokens_word(Seq::empty(), w, seq![' '] + joined_tail);
        assert(Seq::<char>::empty() + w =~= w);
        assert((seq![' '] + joined_tail)[0] == ' ');
        assert((seq![' '] + joined_tail).drop_first() =~= joined_tail);
        assert(ws_tokens(w, seq![' '] + joined_tail) == seq![w] + ws_tokens(
            Seq::empty(),
            joined_tail,
        ));
        assert forall|i: int| 0 <= i < tail.len() implies (#[trigger] tail[i]).len() > 0 by {
            assert(tail[i] == args[i + 1]);
        }
        assert forall|i: int, j: int|
            0 <= i < tail.len() && 0 <= j < tail[i].len() implies (#[trigger] tail[i][j])
            != ' ' by {
            assert(tail[i] == args[i + 1]);
        }
        lemma_ws_split_join(tail);
        assert(seq![w] + tail =~= args);
    }
}

/// Joining plain, space-free words with spaces yields plain text.
proof fn lemma_join_plain(args: Seq<Seq<char>>)
    requires
        forall|i: int, j: int|
            0 <= i < args.len() && 0 <= j < args[i].len() ==> is_plain_char(
                #[trigger] args[i][j],
            ),
    ensures
        all_plain(join_spaces_spec(args)),
    decreases args.len(),
{
    if args.len() == 0 {
    } else if args.len() == 1 {
        assert forall|k: int| 0 <= k < join_spaces_spec(args).len() implies is_plain_char(
            join_spaces_spec(args)[k],
        ) by {
            assert(join_spaces_spec(args)[k] == args[0][k]);
        }
    } else {
        let w = args[0];
        let tail = args.drop_first();
        assert forall|i: int, j: int|
            0 <= i < tail.len() && 0 <= j < tail[i].len() implies is_plain_char(
            #[trigger] tail[i][j],
        ) by {
            assert(tail[i] == args[i + 1]);
        }
        lemma_join_plain(tail);
        let joined = join_spaces_spec(args);
        assert forall|k: int| 0 <= k < joined.len() implies is_plain_char(joined[k]) by {
            if k < w.len() {
                assert(joined[k] == args[0][k]);
            } else if k == w.len() {
                assert(joined[k] == ' ');
            } else {
                assert(joined[k] == join_spaces_spec(tail)[k - w.len() - 1]);
            }
        }
    }
}

/// Round trip: `echo` prints its arguments joined by single spaces, so
/// for arguments already free of metacharacters and spaces, tokenizing
/// the printed line as a new `echo` command reproduces exactly the same
/// argument list.
pub proof fn lemma_echo_round_trip(args: Seq<Seq<char>>, env: Env)
    requires
        args.len() > 0,
        forall|i: int| 0 <= i < args.len() ==> (#[trigger] args[i]).len() > 0,
        forall|i: int, j: int|
            0 <= i < args.len() && 0 <= j < args[i].len() ==> is_plain_char(#[trigger] args[i][j])
                && args[i][j] != ' ',
    ensures
        tokenize_spec("echo "@ + join_spaces_spec(args), env) matches Ok(m) && m.name == "echo"@
            && m.args == args,
{
    let joined = join_spaces_spec(args);
    let line = "echo "@ + joined;
    reveal_strlit("echo ");
    reveal_strlit("echo");
    assert("echo "@ =~= seq!['e', 'c', 'h', 'o', ' ']);
    assert("echo"@ =~= seq!['e', 'c', 'h', 'o']);
    lemma_join_plain(args);
    assert forall|k: int| 0 <= k < line.len() implies is_plain_char(line[k]) by {
        if k >= 5 {
            assert(line[k] == joined[k - 5]);
        }
    }
    lemma_plain_line_splits(line, env);
    let w = "echo"@;
    assert(line =~= w + (seq![' '] + joined));
    lemma_ws_tokens_word(Seq::empty(), w, seq![' '] + joined);
    assert(Seq::<char>::empty() + w =~= w);
    assert((seq![' '] + joined)[0] == ' ');
    assert((seq![' '] + joined).drop_first() =~= joined);
    assert(ws_tokens(w, seq![' '] + joined) == seq![w] + ws_tokens(Seq::empty(), joined));
    lemma_ws_split_join(args);
    assert(ws_split(line) == seq![w] + args);
    assert((seq![w] + args)[0] == w);
    assert((seq![w] + args).drop_first() =~= args);
}

} // verus!
