//! Search-path handling: splitting the `PATH` value on `:` and joining
//! a command name onto each directory, in order.
//!
//! Empty entries are preserved positionally — a leading, trailing or
//! doubled colon yields an empty directory candidate, consistent with
//! POSIX `PATH` semantics. Whether a candidate exists on the filesystem
//! is a capability of the surrounding program; this module fixes the
//! candidate list and its order.

use vstd::prelude::*;
use vstd::string::*;
use crate::text::push_char;

verus! {

/// The number of characters before the first `:` of `s` (all of `s` if
/// it has none).
pub open spec fn seg_len(s: Seq<char>) -> nat
    decreases s.len(),
{
    if s.len() > 0 && s[0] != ':' {
        (seg_len(s.drop_first()) + 1) as nat
    } else {
        0
    }
}

/// A segment never extends past the end of the text.
pub proof fn lemma_seg_len_le(s: Seq<char>)
    ensures
        seg_len(s) <= s.len(),
    decreases s.len(),
{
    if s.len() > 0 && s[0] != ':' {
        lemma_seg_len_le(s.drop_first());
    }
}

/// `s` split on `:`, empty entries preserved: the empty text yields one
/// empty entry, and every `:` separates two entries.
pub open spec fn split_colon(s: Seq<char>) -> Seq<Seq<char>>
    decreases s.len(),
    via split_colon_decreases
{
    let n = seg_len(s) as int;
    if n == s.len() {
        seq![s]
    } else {
        seq![s.take(n)] + split_colon(s.skip(n + 1))
    }
}

#[via_fn]
proof fn split_colon_decreases(s: Seq<char>) {
    lemma_seg_len_le(s);
}

/// Split a `PATH` value on `:` into its directory entries, in order,
/// empty entries preserved.
pub fn split_search_path(path_value: &str) -> (r: Vec<String>)
    ensures
        r.deep_view() == split_colon(path_value@),
{
    let len = path_value.unicode_len();
    let mut r: Vec<String> = Vec::new();
    let mut start: usize = 0;
    proof {
        assert(path_value@.skip(0) =~= path_value@);
        assert(r.deep_view() =~= Seq::<Seq<char>>::empty());
    }
    loop
        invariant_except_break
            0 <= start <= len,
            len == path_value@.len(),
            split_colon(path_value@) == r.deep_view() + split_colon(path_value@.skip(start as int)),
        ensures
            r.deep_view() == split_colon(path_value@),
        decreases len - start,
    {
        let ghost prefix = r.deep_view();
        let mut j: usize = start;
        while j < len && path_value.get_char(j) != ':'
            invariant
                start <= j <= len,
                len == path_value@.len(),
                seg_len(path_value@.skip(start as int)) == (j - start) + seg_len(
                    path_value@.skip(j as int),
                ),
            decreases len - j,
        {
            proof {
                assert(path_value@.skip(j as int)[0] == path_value@[j as int]);
                assert(path_value@.skip(j as int).drop_first() =~= path_value@.skip(j as int + 1));
            }
            j = j + 1;
        }
        proof {
            if j < len {
                assert(path_value@.skip(j as int)[0] == path_value@[j as int]);
            }
            assert(seg_len(path_value@.skip(j as int)) == 0);
            assert(seg_len(path_value@.skip(start as int)) == j - start);
        }
        let seg = path_value.substring_char(start, j);
        r.push(seg.to_owned());
        proof {
            assert(r.deep_view() =~= prefix.push(seg@));
        }
        if j == len {
            proof {
                assert(path_value@.skip(start as int).take(j - start as int) =~= path_value@.skip(
                    start as int,
                ));
                assert(split_colon(path_value@.skip(start as int)) == seq![
                    path_value@.skip(start as int),
                ]);
                assert(seg@ =~= path_value@.skip(start as int));
                assert(r.deep_view() =~= prefix + split_colon(path_value@.skip(start as int)));
            }
            break;
        }
        proof {
            let tail = path_value@.skip(start as int);
            let n = (j - start) as int;
            assert(n < tail.len());
            assert(tail.take(n) =~= seg@);
            assert(tail.skip(n + 1) =~= path_value@.skip(j as int + 1));
            assert(split_colon(tail) == seq![seg@] + split_colon(path_value@.skip(j as int + 1)));
            assert(r.deep_view() + split_colon(path_value@.skip(j as int + 1)) =~= prefix
                + split_colon(tail));
        }
        start = j + 1;
    }
    r
}

/// The path naming `name` inside `dir`, as the standard path join
/// builds it: an absolute `name` stands alone, an empty `dir`
/// contributes nothing, and exactly one `/` separates the two
/// otherwise.
pub open spec fn join_path_spec(dir: Seq<char>, name: Seq<char>) -> Seq<char> {
    if name.len() > 0 && name[0] == '/' {
        name
    } else if dir.len() == 0 {
        name
    } else if dir.last() == '/' {
        dir + name
    } else {
        dir + seq!['/'] + name
    }
}

/// Join a command name onto one directory.
pub fn join_path(dir: &str, name: &str) -> (r: String)
    ensures
        r@ == join_path_spec(dir@, name@),
{
    let nlen = name.unicode_len();
    let dlen = dir.unicode_len();
    if nlen > 0 && name.get_char(0) == '/' {
        return name.to_owned();
    }
    if dlen == 0 {
        return name.to_owned();
    }
    let mut r = dir.to_owned();
    if dir.get_char(dlen - 1) != '/' {
        push_char(&mut r, '/');
    }
    r.append(name);
    proof {
        assert(dir@.last() == dir@[dlen as int - 1]);
        if dir@[dlen as int - 1] != '/' {
            assert(r@ =~= dir@ + seq!['/'] + name@);
        }
    }
    r
}

/// The candidate paths for resolving `name` against a `PATH` value:
/// `name` joined onto each directory, in search order.
pub open spec fn candidates_spec(path_value: Seq<char>, name: Seq<char>) -> Seq<Seq<char>> {
    split_colon(path_value).map(|i: int, d: Seq<char>| join_path_spec(d, name))
}

/// The candidate paths for resolving `name`, in search order; the first
/// of them that exists is the resolution.
pub fn path_candidates(path_value: &str, name: &str) -> (r: Vec<String>)
    ensures
        r.deep_view() == candidates_spec(path_value@, name@),
{
    let dirs = split_search_path(path_value);
    let mut r: Vec<String> = Vec::new();
    let mut i: usize = 0;
    proof {
        assert(r.deep_view() =~= Seq::<Seq<char>>::empty());
        assert(dirs.deep_view().take(0).map(|k: int, d: Seq<char>| join_path_spec(d, name@))
            =~= Seq::<Seq<char>>::empty());
    }
    while i < dirs.len()
        invariant
            0 <= i <= dirs@.len(),
            dirs.deep_view() == split_colon(path_value@),
            r.deep_view() == dirs.deep_view().take(i as int).map(
                |k: int, d: Seq<char>| join_path_spec(d, name@),
            ),
        decreases dirs@.len() - i,
    {
        let ghost prefix = r.deep_view();
        let joined = join_path(dirs[i].as_str(), name);
        r.push(joined);
        proof {
            assert(r.deep_view() =~= prefix.push(joined@));
            assert(dirs.deep_view()[i as int] == dirs@[i as int]@);
            assert(r.deep_view() =~= dirs.deep_view().take(i as int + 1).map(
                |k: int, d: Seq<char>| join_path_spec(d, name@),
            ));
        }
        i = i + 1;
    }
    proof {
        assert(dirs.deep_view().take(dirs@.len() as int) =~= dirs.deep_view());
        assert(r.deep_view() =~= candidates_spec(path_value@, name@));
    }
    r
}

} // verus!
