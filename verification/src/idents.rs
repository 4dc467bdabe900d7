//! Tokenizing owner cells: word-like identifier runs, whitespace- and
//! comma-separated pieces, and username extraction. The identifier and
//! username searches are made by the regex crate behind trusted
//! wrappers; the splitting used for task owners is verified directly.

use vstd::prelude::*;
use crate::text::is_ws;

verus! {

/// An identifier character: letters, digits, `-` and `.` (the word-like
/// tokens of an owners cell).
pub open spec fn is_ident_char(c: char) -> bool {
    c == '-' || c == '.' || (48 <= c as u32 <= 57) || (65 <= c as u32 <= 90)
        || (97 <= c as u32 <= 122)
}

/// A username character: letters, digits and `-`.
pub open spec fn is_uname_char(c: char) -> bool {
    c == '-' || (48 <= c as u32 <= 57) || (65 <= c as u32 <= 90) || (97 <= c as u32 <= 122)
}

/// How a piece of text is split into tokens: at whitespace, at commas,
/// or at anything that is not an identifier character.
#[derive(Debug, Clone, Copy, PartialEq, Eq, Structural)]
pub enum TokenMode {
    Whitespace,
    Comma,
    Ident,
}

/// Whether `c` separates tokens in the given mode.
pub open spec fn is_sep(mode: TokenMode, c: char) -> bool {
    match mode {
        TokenMode::Whitespace => is_ws(c),
        TokenMode::Comma => c == ',',
        TokenMode::Ident => !is_ident_char(c),
    }
}

/// The maximal runs of non-separator characters of `s`, given that the
/// characters of `cur` directly precede `s` in the current run.
pub open spec fn tokens_acc(mode: TokenMode, s: Seq<char>, cur: Seq<char>) -> Seq<Seq<char>>
    decreases s.len(),
{
    if s.len() == 0 {
        if cur.len() > 0 {
            seq![cur]
        } else {
            Seq::empty()
        }
    } else if !is_sep(mode, s[0]) {
        tokens_acc(mode, s.drop_first(), cur.push(s[0]))
    } else {
        (if cur.len() > 0 {
            seq![cur]
        } else {
            Seq::empty()
        }) + tokens_acc(mode, s.drop_first(), Seq::empty())
    }
}

/// The maximal runs of non-separator characters of `s`.
pub open spec fn tokens_of(mode: TokenMode, s: Seq<char>) -> Seq<Seq<char>> {
    tokens_acc(mode, s, Seq::empty())
}

/// Whether `c` separates tokens in the given mode.
pub fn is_sep_char(mode: TokenMode, c: char) -> (r: bool)
    ensures
        r == is_sep(mode, c),
{
    match mode {
        TokenMode::Whitespace => c == ' ' || c == '\t' || c == '\n' || c == '\r',
        TokenMode::Comma => c == ',',
        TokenMode::Ident => {
            let code = c as u32;
            !(c == '-' || c == '.' || (48 <= code && code <= 57) || (65 <= code && code <= 90)
                || (97 <= code && code <= 122))
        },
    }
}

fn split_tokens_go(mode: TokenMode, s: &str, i: usize, cur: String) -> (r: Vec<String>)
    requires
        i <= s@.len(),
    ensures
        r.deep_view() == tokens_acc(mode, s@.skip(i as int), cur@),
    decreases s@.len() - i,
{
    let len = s.unicode_len();
    if i == len {
        proof {
            assert(s@.skip(i as int) =~= Seq::<char>::empty());
        }
        if cur.as_str().unicode_len() > 0 {
            let mut v: Vec<String> = Vec::new();
            let ghost cv = cur@;
            v.push(cur);
            proof {
                assert(v.deep_view() =~= seq![cv]);
            }
            v
        } else {
            let v: Vec<String> = Vec::new();
            proof {
                assert(v.deep_view() =~= Seq::<Seq<char>>::empty());
            }
            v
        }
    } else {
        let c = s.get_char(i);
        proof {
            assert(s@.skip(i as int)[0] == s@[i as int]);
            assert(s@.skip(i as int).drop_first() =~= s@.skip(i as int + 1));
        }
        if !is_sep_char(mode, c) {
            let piece = s.substring_char(i, i + 1);
            let mut cur2 = cur;
            let ghost cv = cur2@;
            cur2.append(piece);
            proof {
                assert(piece@ =~= seq![s@[i as int]]);
                assert(cur2@ =~= cv.push(s@[i as int]));
            }
            split_tokens_go(mode, s, i + 1, cur2)
        } else {
            let rest = split_tokens_go(mode, s, i + 1, String::new());
            if cur.as_str().unicode_len() > 0 {
                let mut out: Vec<String> = Vec::new();
                let ghost cv = cur@;
                out.push(cur);
                let mut rest2 = rest;
                let ghost rv = rest2.deep_view();
                out.append(&mut rest2);
                proof {
                    assert(out.deep_view().len() == 1 + rv.len());
                    assert(out.deep_view()[0] == cv);
                    assert(forall|k: int| 0 <= k < rv.len()
                        ==> out.deep_view()[1 + k] == rv[k]);
                    assert(out.deep_view() =~= seq![cv] + rv);
                }
                out
            } else {
                rest
            }
        }
    }
}

/// Split `s` into its maximal runs of non-separator characters.
pub fn split_tokens(mode: TokenMode, s: &str) -> (r: Vec<String>)
    ensures
        r.deep_view() == tokens_of(mode, s@),
{
    proof {
        assert(s@.skip(0) =~= s@);
    }
    split_tokens_go(mode, s, 0, String::new())
}

/// The longest prefix of `s` made of username characters.
pub open spec fn leading_uname_run(s: Seq<char>) -> Seq<char>
    decreases s.len(),
{
    if s.len() > 0 && is_uname_char(s[0]) {
        seq![s[0]] + leading_uname_run(s.drop_first())
    } else {
        Seq::empty()
    }
}

/// The first username occurring in `s`: a `@` followed by at least one
/// username character, extending as far as username characters go.
pub open spec fn first_username(s: Seq<char>) -> Option<Seq<char>>
    decreases s.len(),
{
    if s.len() == 0 {
        None
    } else if s[0] == '@' && s.len() >= 2 && is_uname_char(s[1]) {
        Some(seq!['@'] + leading_uname_run(s.drop_first()))
    } else {
        first_username(s.drop_first())
    }
}

/// Whether the whole of `s` is one username: a `@` followed by one or
/// more username characters.
pub open spec fn is_username(s: Seq<char>) -> bool {
    s.len() >= 2 && s[0] == '@'
    && forall|k: int| 1 <= k < s.len() ==> is_uname_char(#[trigger] s[k])
}

/// Relies on regex: `Regex::new(r"^@[-a-zA-Z0-9]+$")` matches a haystack
/// exactly when the whole haystack is `@` followed by one or more of
/// `-`, letters and digits, which is `is_username`.
#[verifier::external_body]
pub(crate) fn is_just_username(s: &str) -> (r: bool)
    ensures
        r == is_username(s@),
{
    regex::Regex::new(r"^@[-a-zA-Z0-9]+$").unwrap().is_match(s)
}

/// Relies on regex: `Regex::find` with pattern `@[-a-zA-Z0-9]+` returns
/// the leftmost match, extended greedily, which is `first_username`;
/// `None` when no such substring occurs.
#[verifier::external_body]
pub(crate) fn find_username(s: &str) -> (r: Option<String>)
    ensures
        match r {
            Some(u) => first_username(s@) == Some(u@),
            None => first_username(s@) is None,
        },
{
    regex::Regex::new(r"@[-a-zA-Z0-9]+").unwrap().find(s).map(|m| m.as_str().to_string())
}

/// Relies on regex: `Regex::find_iter` with pattern `[-.A-Za-z0-9]+`
/// yields the successive non-overlapping leftmost matches, which are
/// exactly the maximal runs of identifier characters, in order.
#[verifier::external_body]
pub(crate) fn ident_token_runs(s: &str) -> (r: Vec<String>)
    ensures
        r.deep_view() == tokens_of(TokenMode::Ident, s@),
{
    regex::Regex::new(r"[-.A-Za-z0-9]+")
        .unwrap()
        .find_iter(s)
        .map(|m| m.as_str().to_string())
        .collect()
}

} // verus!
