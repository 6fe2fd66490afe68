//! Turning vocabulary text into words.
//!
//! A vocabulary file is an arbitrary sequence of whitespace-separated tokens;
//! each token is one word. Reading the file belongs to the surrounding
//! program; `tokenize` is the part with meaning, and its contract pins the
//! token list down exactly.

use vstd::prelude::*;
use vstd::string::StrSliceExecFns;
use vstd::string::StringExecFns;
use crate::error::ErrorKind;
use crate::shuffle::rand_index;

verus! {

/// Whitespace, as both the vocabulary format and the typed input mean it:
/// the Unicode White_Space set — the ASCII separators, next line, no-break
/// space, ogham space mark, the en-quad..hair-space run, the line and
/// paragraph separators, narrow no-break space, medium mathematical space,
/// and ideographic space.
pub open spec fn spec_is_space(c: char) -> bool {
    ||| c == ' '
    ||| c == '\t'
    ||| c == '\n'
    ||| c == '\u{0b}'
    ||| c == '\u{0c}'
    ||| c == '\r'
    ||| c == '\u{85}'
    ||| c == '\u{a0}'
    ||| c == '\u{1680}'
    ||| ('\u{2000}' <= c && c <= '\u{200a}')
    ||| c == '\u{2028}'
    ||| c == '\u{2029}'
    ||| c == '\u{202f}'
    ||| c == '\u{205f}'
    ||| c == '\u{3000}'
}

pub fn is_space(c: char) -> (r: bool)
    ensures
        r == spec_is_space(c),
{
    c == ' ' || c == '\t' || c == '\n' || c == '\u{0b}' || c == '\u{0c}' || c == '\r'
        || c == '\u{85}' || c == '\u{a0}' || c == '\u{1680}' || ('\u{2000}' <= c
        && c <= '\u{200a}') || c == '\u{2028}' || c == '\u{2029}' || c == '\u{202f}'
        || c == '\u{205f}' || c == '\u{3000}'
}

/// The first position at or after `i` that holds a separator, or the end.
pub open spec fn scan_token_end(s: Seq<char>, i: int) -> int
    decreases s.len() - i,
{
    if i < 0 || i >= s.len() || spec_is_space(s[i]) {
        i
    } else {
        scan_token_end(s, i + 1)
    }
}

/// The tokens of `s` from position `i` on: separators are skipped, and each
/// maximal run of non-separator characters is one token.
pub open spec fn spec_tokens_from(s: Seq<char>, i: int) -> Seq<Seq<char>>
    decreases s.len() - i,
{
    if i < 0 || i >= s.len() {
        Seq::empty()
    } else if spec_is_space(s[i]) {
        spec_tokens_from(s, i + 1)
    } else {
        let j = scan_token_end(s, i);
        if j <= i || j > s.len() {
            Seq::empty()
        } else {
            seq![s.subrange(i, j)] + spec_tokens_from(s, j)
        }
    }
}

/// The whitespace-separated tokens of `s`.
pub open spec fn spec_tokens(s: Seq<char>) -> Seq<Seq<char>> {
    spec_tokens_from(s, 0)
}

/// Splits vocabulary text into its whitespace-separated words.
pub fn tokenize(text: &str) -> (r: Vec<String>)
    ensures
        r.deep_view() == spec_tokens(text@),
{
    let n = text.unicode_len();
    let mut out: Vec<String> = Vec::new();
    let mut i: usize = 0;
    while i < n
        invariant
            i <= n,
            n == text@.len(),
            spec_tokens(text@) == out.deep_view() + spec_tokens_from(text@, i as int),
        decreases n - i,
    {
        if is_space(text.get_char(i)) {
            i = i + 1;
        } else {
            let mut j: usize = i;
            while j < n && !is_space(text.get_char(j))
                invariant
                    i <= j <= n,
                    n == text@.len(),
                    scan_token_end(text@, i as int) == scan_token_end(text@, j as int),
                decreases n - j,
            {
                j = j + 1;
            }
            let token = String::from_str(text.substring_char(i, j));
            let ghost prev = out.deep_view();
            out.push(token);
            proof {
                assert(out.deep_view() =~= prev.push(token@));
                assert(out.deep_view() + spec_tokens_from(text@, j as int) =~= prev
                    + spec_tokens_from(text@, i as int));
            }
            i = j;
        }
    }
    proof {
        assert(spec_tokens(text@) =~= out.deep_view());
    }
    out
}

/// Turns a word into the list of its characters, in order.
pub fn charize(word: &String) -> (r: Vec<char>)
    ensures
        r@ == word@,
{
    let s = word.as_str();
    let n = s.unicode_len();
    let mut out: Vec<char> = Vec::new();
    let mut i: usize = 0;
    while i < n
        invariant
            i <= n,
            n == s@.len(),
            s@ == word@,
            out@ == s@.subrange(0, i as int),
        decreases n - i,
    {
        out.push(s.get_char(i));
        proof {
            assert(out@ =~= s@.subrange(0, i + 1 as int));
        }
        i = i + 1;
    }
    proof {
        assert(out@ =~= word@);
    }
    out
}

/// Picks one word of the list at random; every word of the result is a word
/// of the list. Only defined on a non-empty list.
pub fn randomizer(wordlist: &Vec<String>) -> (r: Result<String, ErrorKind>)
    requires
        wordlist@.len() > 0,
    ensures
        r is Ok,
        exists|i: int| 0 <= i < wordlist@.len() && r->Ok_0@ == wordlist@[i]@,
{
    let i = rand_index(wordlist.len());
    let word = wordlist[i].clone();
    proof {
        assert(word@ == wordlist@[i as int]@);
    }
    Ok(word)
}

} // verus!
