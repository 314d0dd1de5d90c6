//! The request of the put endpoint: an owner key and a payload, separated by
//! ASCII whitespace.

use vstd::prelude::*;
use vstd::string::*;

verus! {

/// Space, tab, line feed, form feed or carriage return.
pub open spec fn is_ascii_ws(c: char) -> bool {
    c == ' ' || c == '\t' || c == '\n' || c == '\x0C' || c == '\r'
}

/// The first position from `i` on that holds no whitespace, or the length.
pub open spec fn skip_ws(s: Seq<char>, i: int) -> int
    decreases s.len() - i,
{
    if i < 0 || i >= s.len() {
        s.len() as int
    } else if is_ascii_ws(s[i]) {
        skip_ws(s, i + 1)
    } else {
        i
    }
}

/// The first position from `i` on that holds whitespace, or the length.
pub open spec fn token_end(s: Seq<char>, i: int) -> int
    decreases s.len() - i,
{
    if i < 0 || i >= s.len() {
        s.len() as int
    } else if is_ascii_ws(s[i]) {
        i
    } else {
        token_end(s, i + 1)
    }
}

/// The first two whitespace-separated words of `s`, where it has two.
pub open spec fn first_two_words(s: Seq<char>) -> Option<(Seq<char>, Seq<char>)> {
    let a = skip_ws(s, 0);
    let b = token_end(s, a);
    let c = skip_ws(s, b);
    let d = token_end(s, c);
    if a < s.len() && c < s.len() {
        Some((s.subrange(a, b), s.subrange(c, d)))
    } else {
        None
    }
}

pub proof fn lemma_skip_ws_bounds(s: Seq<char>, i: int)
    requires
        0 <= i <= s.len(),
    ensures
        i <= skip_ws(s, i) <= s.len(),
    decreases s.len() - i,
{
    if i < s.len() && is_ascii_ws(s[i]) {
        lemma_skip_ws_bounds(s, i + 1);
    }
}

pub proof fn lemma_token_end_bounds(s: Seq<char>, i: int)
    requires
        0 <= i <= s.len(),
    ensures
        i <= token_end(s, i) <= s.len(),
    decreases s.len() - i,
{
    if i < s.len() && !is_ascii_ws(s[i]) {
        lemma_token_end_bounds(s, i + 1);
    }
}

fn is_ascii_ws_char(c: char) -> (r: bool)
    ensures
        r == is_ascii_ws(c),
{
    c == ' ' || c == '\t' || c == '\n' || c == '\x0C' || c == '\r'
}

/// `skip_ws(s@, i)`, computed.
fn skip_ws_exec(s: &str, n: usize, i: usize) -> (r: usize)
    requires
        n == s@.len(),
        i <= n,
    ensures
        r == skip_ws(s@, i as int),
{
    let mut j = i;
    while j < n && is_ascii_ws_char(s.get_char(j))
        invariant
            n == s@.len(),
            i <= j <= n,
            skip_ws(s@, i as int) == skip_ws(s@, j as int),
        decreases n - j,
    {
        j = j + 1;
    }
    j
}

/// `token_end(s@, i)`, computed.
fn token_end_exec(s: &str, n: usize, i: usize) -> (r: usize)
    requires
        n == s@.len(),
        i <= n,
    ensures
        r == token_end(s@, i as int),
{
    let mut j = i;
    while j < n && !is_ascii_ws_char(s.get_char(j))
        invariant
            n == s@.len(),
            i <= j <= n,
            token_end(s@, i as int) == token_end(s@, j as int),
        decreases n - j,
    {
        j = j + 1;
    }
    j
}

/// Splits a put request into its owner key and payload; `None` when it holds
/// fewer than two words. Words after the second are ignored.
pub fn parse_put_params(params: &String) -> (r: Option<(String, String)>)
    ensures
        match r {
            Some(p) => first_two_words(params@) == Some((p.0@, p.1@)),
            None => first_two_words(params@) is None,
        },
{
    let s = params.as_str();
    let n = s.unicode_len();
    let a = skip_ws_exec(s, n, 0);
    proof {
        lemma_skip_ws_bounds(s@, 0);
        lemma_token_end_bounds(s@, a as int);
    }
    let b = token_end_exec(s, n, a);
    proof {
        lemma_skip_ws_bounds(s@, b as int);
    }
    let c = skip_ws_exec(s, n, b);
    proof {
        lemma_token_end_bounds(s@, c as int);
    }
    let d = token_end_exec(s, n, c);
    if a < n && c < n {
        let key = String::from_str(s.substring_char(a, b));
        let payload = String::from_str(s.substring_char(c, d));
        Some((key, payload))
    } else {
        None
    }
}

} // verus!
