//! Character classification and small string utilities.
//!
//! The character classes the tokenizer needs (whitespace, alphabetic,
//! alphanumeric) come from `char`'s own Unicode tables; each is modelled
//! by an opaque predicate that the corresponding trusted wrapper ties to
//! the standard-library call. Everything else here is verified string
//! manipulation: equality, trimming and joining.

use vstd::prelude::*;
use vstd::string::*;

verus! {

/// Whether a character has the Unicode `White_Space` property.
pub uninterp spec fn is_unicode_ws(c: char) -> bool;

/// Whether a character is Unicode-alphabetic.
pub uninterp spec fn is_alpha(c: char) -> bool;

/// Whether a character is Unicode-alphanumeric.
pub uninterp spec fn is_alnum(c: char) -> bool;

/// Relies on char::is_whitespace: true exactly for characters with the
/// Unicode `White_Space` property; the result depends on the character alone.
#[verifier::external_body]
pub(crate) fn is_whitespace_char(c: char) -> (r: bool)
    ensures
        r == is_unicode_ws(c),
{
    c.is_whitespace()
}

/// Relies on char::is_alphabetic: true exactly for characters in the Unicode
/// `Alphabetic` category; the result depends on the character alone.
#[verifier::external_body]
pub(crate) fn is_alphabetic_char(c: char) -> (r: bool)
    ensures
        r == is_alpha(c),
{
    c.is_alphabetic()
}

/// Relies on char::is_alphanumeric: true exactly for characters that are
/// alphabetic or numeric in Unicode; the result depends on the character alone.
#[verifier::external_body]
pub(crate) fn is_alphanumeric_char(c: char) -> (r: bool)
    ensures
        r == is_alnum(c),
{
    c.is_alphanumeric()
}

/// Relies on String::push: appends exactly one character at the end.
#[verifier::external_body]
pub(crate) fn push_char(s: &mut String, c: char)
    ensures
        final(s)@ == old(s)@ + seq![c],
{
    s.push(c);
}

/// Character-wise string equality, equivalent to equality of the views.
pub fn str_eq(a: &str, b: &str) -> (r: bool)
    ensures
        r == (a@ == b@),
{
    let alen = a.unicode_len();
    let blen = b.unicode_len();
    if alen != blen {
        return false;
    }
    let mut i: usize = 0;
    while i < alen
        invariant
            0 <= i <= alen,
            alen == a@.len(),
            alen == b@.len(),
            forall|j: int| 0 <= j < i ==> a@[j] == b@[j],
        decreases alen - i,
    {
        if a.get_char(i) != b.get_char(i) {
            return false;
        }
        i = i + 1;
    }
    proof {
        assert(a@ =~= b@);
    }
    true
}

/// `s` with its leading whitespace characters removed.
pub open spec fn drop_leading_ws(s: Seq<char>) -> Seq<char>
    decreases s.len(),
{
    if s.len() > 0 && is_unicode_ws(s[0]) {
        drop_leading_ws(s.drop_first())
    } else {
        s
    }
}

/// `s` with its trailing whitespace characters removed.
pub open spec fn drop_trailing_ws(s: Seq<char>) -> Seq<char>
    decreases s.len(),
{
    if s.len() > 0 && is_unicode_ws(s.last()) {
        drop_trailing_ws(s.drop_last())
    } else {
        s
    }
}

/// `s` without leading or trailing whitespace.
pub open spec fn trim_spec(s: Seq<char>) -> Seq<char> {
    drop_trailing_ws(drop_leading_ws(s))
}

/// The line with leading and trailing Unicode whitespace removed.
pub fn trim_line<'a>(s: &'a str) -> (r: &'a str)
    ensures
        r@ == trim_spec(s@),
{
    let len = s.unicode_len();
    let mut lo: usize = 0;
    proof {
        assert(s@.skip(0) =~= s@);
    }
    while lo < len && is_whitespace_char(s.get_char(lo))
        invariant
            0 <= lo <= len,
            len == s@.len(),
            drop_leading_ws(s@) == drop_leading_ws(s@.skip(lo as int)),
        decreases len - lo,
    {
        proof {
            assert(s@.skip(lo as int).drop_first() =~= s@.skip(lo as int + 1));
        }
        lo = lo + 1;
    }
    proof {
        assert(drop_leading_ws(s@.skip(lo as int)) == s@.skip(lo as int));
    }
    let mut hi: usize = len;
    proof {
        assert(s@.subrange(lo as int, hi as int) =~= s@.skip(lo as int));
    }
    while hi > lo && is_whitespace_char(s.get_char(hi - 1))
        invariant
            0 <= lo <= hi <= len,
            len == s@.len(),
            drop_leading_ws(s@) == s@.skip(lo as int),
            drop_trailing_ws(s@.skip(lo as int)) == drop_trailing_ws(
                s@.subrange(lo as int, hi as int),
            ),
        decreases hi,
    {
        proof {
            assert(s@.subrange(lo as int, hi as int).drop_last() =~= s@.subrange(
                lo as int,
                hi as int - 1,
            ));
        }
        hi = hi - 1;
    }
    proof {
        assert(drop_trailing_ws(s@.subrange(lo as int, hi as int)) == s@.subrange(
            lo as int,
            hi as int,
        ));
    }
    s.substring_char(lo, hi)
}

/// The parts joined with a single space between consecutive parts.
pub open spec fn join_spaces_spec(parts: Seq<Seq<char>>) -> Seq<char>
    decreases parts.len(),
{
    if parts.len() == 0 {
        Seq::empty()
    } else if parts.len() == 1 {
        parts[0]
    } else {
        parts[0] + seq![' '] + join_spaces_spec(parts.drop_first())
    }
}

/// Appending one more part extends the joined text by a space and that part.
pub proof fn lemma_join_spaces_push(parts: Seq<Seq<char>>, x: Seq<char>)
    ensures
        join_spaces_spec(parts.push(x)) == if parts.len() == 0 {
            x
        } else {
            join_spaces_spec(parts) + seq![' '] + x
        },
    decreases parts.len(),
{
    if parts.len() == 0 {
        assert(parts.push(x).len() == 1);
        assert(parts.push(x)[0] == x);
    } else {
        assert(parts.push(x).drop_first() =~= parts.drop_first().push(x));
        lemma_join_spaces_push(parts.drop_first(), x);
        if parts.len() == 1 {
            assert(parts.drop_first().len() == 0);
            assert(join_spaces_spec(parts.push(x)) == parts[0] + seq![' '] + x);
            assert(join_spaces_spec(parts) == parts[0]);
        } else {
            assert(join_spaces_spec(parts.push(x)) == parts[0] + seq![' ']
                + (join_spaces_spec(parts.drop_first()) + seq![' '] + x));
            assert(parts[0] + seq![' '] + (join_spaces_spec(parts.drop_first()) + seq![' '] + x)
                =~= (parts[0] + seq![' '] + join_spaces_spec(parts.drop_first())) + seq![' '] + x);
        }
    }
}

/// The parts joined with single spaces, as `echo` prints its arguments.
pub fn join_spaces(parts: &Vec<String>) -> (r: String)
    ensures
        r@ == join_spaces_spec(parts.deep_view()),
{
    let mut r = String::new();
    let mut i: usize = 0;
    while i < parts.len()
        invariant
            0 <= i <= parts.len(),
            r@ == join_spaces_spec(parts.deep_view().take(i as int)),
        decreases parts.len() - i,
    {
        proof {
            assert(parts.deep_view().take(i as int).push(parts.deep_view()[i as int])
                =~= parts.deep_view().take(i as int + 1));
            lemma_join_spaces_push(parts.deep_view().take(i as int), parts.deep_view()[i as int]);
        }
        if i > 0 {
            r.append(" ");
        }
        r.append(parts[i].as_str());
        proof {
            reveal_strlit(" ");
            assert(" "@ =~= seq![' ']);
            if i == 0 {
                assert(r@ =~= parts.deep_view()[0]);
            } else {
                assert(r@ =~= join_spaces_spec(parts.deep_view().take(i as int)) + seq![' ']
                    + parts.deep_view()[i as int]);
            }
        }
        i = i + 1;
    }
    proof {
        assert(parts.deep_view().take(parts.deep_view().len() as int) =~= parts.deep_view());
    }
    r
}

} // verus!
