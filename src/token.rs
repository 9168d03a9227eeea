//! Splitting argument text into words, with single and double quotes.
use vstd::prelude::*;

use crate::command::ParseError;

verus! {

/// The characters that end an unquoted word.
pub open spec fn is_ws(c: char) -> bool {
    c == ' ' || c == '\t' || c == '\n' || c == '\r'
}

pub open spec fn is_quote(c: char) -> bool {
    c == '\'' || c == '"'
}

/// The first index at or after `i` that holds whitespace, or the length.
pub open spec fn word_end(s: Seq<char>, i: int) -> int
    decreases s.len() - i,
{
    if 0 <= i < s.len() && !is_ws(s[i]) {
        word_end(s, i + 1)
    } else {
        i
    }
}

/// The first index at or after `i` that holds no whitespace, or the length.
pub open spec fn ws_end(s: Seq<char>, i: int) -> int
    decreases s.len() - i,
{
    if 0 <= i < s.len() && is_ws(s[i]) {
        ws_end(s, i + 1)
    } else {
        i
    }
}

/// The first index at or after `i` that holds `q`, or the length.
pub open spec fn quote_end(s: Seq<char>, i: int, q: char) -> int
    decreases s.len() - i,
{
    if 0 <= i < s.len() && s[i] != q {
        quote_end(s, i + 1, q)
    } else {
        i
    }
}

/// Where the quote that opens at `i` would close.
pub open spec fn closing_quote(s: Seq<char>, i: int) -> int {
    quote_end(s, i + 1, s[i])
}

/// A quoted word starts at `i`: a quote, at least one other character, and
/// the same quote again.
pub open spec fn quoted_at(s: Seq<char>, i: int) -> bool {
    is_quote(s[i]) && i + 1 < closing_quote(s, i) && closing_quote(s, i) < s.len()
}

/// The index just past the word that starts at `i`.
pub open spec fn token_end(s: Seq<char>, i: int) -> int {
    if quoted_at(s, i) {
        closing_quote(s, i) + 1
    } else {
        word_end(s, i)
    }
}

/// The text of the word that starts at `i`, its quotes taken off.
pub open spec fn token_text(s: Seq<char>, i: int) -> Seq<char> {
    if quoted_at(s, i) {
        s.subrange(i + 1, closing_quote(s, i))
    } else {
        s.subrange(i, word_end(s, i))
    }
}

/// A quoted word at `i` runs on into other characters after its closing quote.
pub open spec fn malformed_at(s: Seq<char>, i: int) -> bool {
    quoted_at(s, i) && token_end(s, i) < s.len() && !is_ws(s[token_end(s, i)])
}

/// The words of `s` from index `i` on, or `None` where the text there starts
/// with whitespace or holds a malformed quoted word.
pub open spec fn tokens_at(s: Seq<char>, i: int) -> Option<Seq<Seq<char>>>
    decreases s.len() - i,
    when 0 <= i
    via tokens_at_decreases
{
    if i >= s.len() {
        Some(Seq::empty())
    } else if is_ws(s[i]) || malformed_at(s, i) {
        None
    } else {
        match tokens_at(s, ws_end(s, token_end(s, i))) {
            Some(rest) => Some(seq![token_text(s, i)] + rest),
            None => None,
        }
    }
}

/// The words of an argument text; there must be at least one.
pub open spec fn tokenize(s: Seq<char>) -> Option<Seq<Seq<char>>> {
    if s.len() == 0 {
        None
    } else {
        tokens_at(s, 0)
    }
}

pub open spec fn views(v: Seq<String>) -> Seq<Seq<char>> {
    v.map_values(|x: String| x@)
}

pub proof fn lemma_word_end_bounds(s: Seq<char>, i: int)
    requires
        0 <= i <= s.len(),
    ensures
        i <= word_end(s, i) <= s.len(),
    decreases s.len() - i,
{
    if i < s.len() && !is_ws(s[i]) {
        lemma_word_end_bounds(s, i + 1);
    }
}

pub proof fn lemma_ws_end_bounds(s: Seq<char>, i: int)
    requires
        0 <= i <= s.len(),
    ensures
        i <= ws_end(s, i) <= s.len(),
    decreases s.len() - i,
{
    if i < s.len() && is_ws(s[i]) {
        lemma_ws_end_bounds(s, i + 1);
    }
}

pub proof fn lemma_quote_end_bounds(s: Seq<char>, i: int, q: char)
    requires
        0 <= i <= s.len(),
    ensures
        i <= quote_end(s, i, q) <= s.len(),
    decreases s.len() - i,
{
    if i < s.len() && s[i] != q {
        lemma_quote_end_bounds(s, i + 1, q);
    }
}

pub proof fn lemma_token_end_bounds(s: Seq<char>, i: int)
    requires
        0 <= i < s.len(),
        !is_ws(s[i]),
    ensures
        i < token_end(s, i) <= s.len(),
{
    lemma_word_end_bounds(s, i + 1);
}

#[via_fn]
proof fn tokens_at_decreases(s: Seq<char>, i: int) {
    if 0 <= i < s.len() && !is_ws(s[i]) && !malformed_at(s, i) {
        lemma_token_end_bounds(s, i);
        lemma_ws_end_bounds(s, token_end(s, i));
    }
}

pub fn is_whitespace(c: char) -> (r: bool)
    ensures
        r == is_ws(c),
{
    c == ' ' || c == '\t' || c == '\n' || c == '\r'
}

/// The characters of `s`, one element each.
pub fn chars_of(s: &str) -> (r: Vec<char>)
    ensures
        r@ == s@,
{
    let mut out: Vec<char> = Vec::new();
    for c in it: s.chars()
        invariant
            out@ == it.seq().take(it.index() as int),
            it.seq() == s@,
    {
        out.push(c);
    }
    out
}

pub(crate) fn scan_word(cs: &Vec<char>, i: usize) -> (r: usize)
    requires
        i <= cs.len(),
    ensures
        r == word_end(cs@, i as int),
        i <= r <= cs.len(),
{
    let mut j: usize = i;
    while j < cs.len() && !is_whitespace(cs[j])
        invariant
            i <= j <= cs.len(),
            word_end(cs@, i as int) == word_end(cs@, j as int),
        decreases cs.len() - j,
    {
        j = j + 1;
    }
    j
}

fn scan_ws(cs: &Vec<char>, i: usize) -> (r: usize)
    requires
        i <= cs.len(),
    ensures
        r == ws_end(cs@, i as int),
{
    let mut j: usize = i;
    while j < cs.len() && is_whitespace(cs[j])
        invariant
            i <= j <= cs.len(),
            ws_end(cs@, i as int) == ws_end(cs@, j as int),
        decreases cs.len() - j,
    {
        j = j + 1;
    }
    j
}

fn scan_until(cs: &Vec<char>, i: usize, q: char) -> (r: usize)
    requires
        i <= cs.len(),
    ensures
        r == quote_end(cs@, i as int, q),
{
    let mut j: usize = i;
    while j < cs.len() && cs[j] != q
        invariant
            i <= j <= cs.len(),
            quote_end(cs@, i as int, q) == quote_end(cs@, j as int, q),
        decreases cs.len() - j,
    {
        j = j + 1;
    }
    j
}

/// Reads the word that starts at `i`: its text and the index just past it,
/// or `None` where it is a malformed quoted word.
fn word_at(s: &str, cs: &Vec<char>, i: usize) -> (r: Option<(String, usize)>)
    requires
        cs@ == s@,
        i < cs.len(),
        !is_ws(cs@[i as int]),
    ensures
        match r {
            Some((t, e)) => !malformed_at(s@, i as int) && t@ == token_text(s@, i as int) && e
                == token_end(s@, i as int),
            None => malformed_at(s@, i as int),
        },
{
    let c = cs[i];
    if c == '\'' || c == '"' {
        let close = scan_until(cs, i + 1, c);
        if i + 1 < close && close < cs.len() {
            let end = close + 1;
            if end < cs.len() && !is_whitespace(cs[end]) {
                return None;
            }
            let text = s.substring_char(i + 1, close).to_owned();
            return Some((text, end));
        }
    }
    let end = scan_word(cs, i);
    proof {
        lemma_word_end_bounds(s@, i as int);
    }
    let text = s.substring_char(i, end).to_owned();
    Some((text, end))
}

/// Reads the word at the start of `input`: its text, quotes taken off, and
/// the text after it and the whitespace that follows it. Fails where `input`
/// is empty, starts with whitespace, or starts with a malformed quoted word.
pub fn parse_arg<'a>(input: &'a str) -> (r: Result<(String, &'a str), ParseError>)
    ensures
        match r {
            Ok((w, rest)) => {
                &&& input@.len() > 0
                &&& !is_ws(input@[0])
                &&& !malformed_at(input@, 0)
                &&& w@ == token_text(input@, 0)
                &&& rest@ == input@.subrange(
                    ws_end(input@, token_end(input@, 0)),
                    input@.len() as int,
                )
            },
            Err(_) => input@.len() == 0 || is_ws(input@[0]) || malformed_at(input@, 0),
        },
{
    let cs = chars_of(input);
    if cs.len() == 0 || is_whitespace(cs[0]) {
        return Err(ParseError);
    }
    match word_at(input, &cs, 0) {
        None => Err(ParseError),
        Some((w, end)) => {
            proof {
                lemma_token_end_bounds(input@, 0);
                lemma_ws_end_bounds(input@, end as int);
            }
            let next = scan_ws(&cs, end);
            Ok((w, input.substring_char(next, cs.len())))
        },
    }
}

/// Splits argument text into its words, quotes taken off. Fails where the
/// text is empty, starts with whitespace, or holds a quoted word that runs on
/// into other characters.
pub fn parse_args(input: &str) -> (r: Result<Vec<String>, ParseError>)
    ensures
        match tokenize(input@) {
            Some(ts) => r is Ok && views(r->Ok_0@) == ts,
            None => r is Err,
        },
{
    let cs = chars_of(input);
    let n = cs.len();
    if n == 0 {
        return Err(ParseError);
    }
    let mut out: Vec<String> = Vec::new();
    let mut i: usize = 0;
    while i < n
        invariant
            cs@ == input@,
            n == cs.len(),
            i <= n,
            tokens_at(input@, 0) == match tokens_at(input@, i as int) {
                Some(rest) => Some(views(out@) + rest),
                None => None,
            },
        decreases n - i,
    {
        if is_whitespace(cs[i]) {
            return Err(ParseError);
        }
        match word_at(input, &cs, i) {
            None => {
                return Err(ParseError);
            },
            Some((text, end)) => {
                proof {
                    lemma_token_end_bounds(input@, i as int);
                }
                let next = scan_ws(&cs, end);
                proof {
                    lemma_ws_end_bounds(input@, end as int);
                    let tok = token_text(input@, i as int);
                    assert(views(out@.push(text)) =~= views(out@).push(tok));
                    match tokens_at(input@, next as int) {
                        Some(rest) => {
                            assert(views(out@) + (seq![tok] + rest) =~= views(out@).push(tok) + rest);
                        },
                        None => {},
                    }
                }
                out.push(text);
                i = next;
            },
        }
    }
    assert(views(out@) + Seq::<Seq<char>>::empty() =~= views(out@));
    Ok(out)
}

} // verus!
