//! Character classes and maximal-run scanning over a string's characters.
//!
//! The pattern matcher works in terms of three character classes: word
//! characters (identifiers), whitespace, and the characters allowed inside a
//! parenthesized column list. Each step of the matcher consumes the maximal
//! run of one class; `run_end` is the specification of that run and the
//! `scan_*` functions compute it.

use vstd::prelude::*;

verus! {

/// A word character: an ASCII letter, a digit or an underscore.
pub open spec fn is_word_char(c: char) -> bool {
    ('a' <= c && c <= 'z') || ('A' <= c && c <= 'Z') || ('0' <= c && c <= '9') || c == '_'
}

/// A whitespace character: space, tab, line feed, vertical tab, form feed or
/// carriage return.
pub open spec fn is_space_char(c: char) -> bool {
    c == ' ' || c == '\t' || c == '\n' || c == '\x0B' || c == '\x0C' || c == '\r'
}

/// A character allowed inside the parenthesized column list: a word
/// character, whitespace or a comma.
pub open spec fn is_inner_char(c: char) -> bool {
    is_word_char(c) || is_space_char(c) || c == ','
}

/// The first position at or after `i` where `p` stops holding: the end of the
/// maximal run of characters satisfying `p` that starts at `i`.
pub open spec fn run_end(s: Seq<char>, i: int, p: spec_fn(char) -> bool) -> int
    decreases s.len() - i,
{
    if i < s.len() && p(s[i]) {
        run_end(s, i + 1, p)
    } else {
        i
    }
}

/// End of the maximal whitespace run starting at `i`.
pub open spec fn ws_end(s: Seq<char>, i: int) -> int {
    run_end(s, i, |c: char| is_space_char(c))
}

/// End of the maximal word-character run starting at `i`.
pub open spec fn word_end(s: Seq<char>, i: int) -> int {
    run_end(s, i, |c: char| is_word_char(c))
}

/// End of the maximal column-list-interior run starting at `i`.
pub open spec fn inner_end(s: Seq<char>, i: int) -> int {
    run_end(s, i, |c: char| is_inner_char(c))
}

/// The whitespace run stays within bounds, consists of whitespace, and is
/// maximal.
pub proof fn lemma_ws_end(s: Seq<char>, i: int)
    requires
        0 <= i <= s.len(),
    ensures
        i <= ws_end(s, i) <= s.len(),
        forall|j: int| i <= j < ws_end(s, i) ==> is_space_char(#[trigger] s[j]),
        ws_end(s, i) == s.len() || !is_space_char(s[ws_end(s, i)]),
    decreases s.len() - i,
{
    if i < s.len() && is_space_char(s[i]) {
        lemma_ws_end(s, i + 1);
    }
}

/// The word-character run stays within bounds, consists of word characters,
/// and is maximal.
pub proof fn lemma_word_end(s: Seq<char>, i: int)
    requires
        0 <= i <= s.len(),
    ensures
        i <= word_end(s, i) <= s.len(),
        forall|j: int| i <= j < word_end(s, i) ==> is_word_char(#[trigger] s[j]),
        word_end(s, i) == s.len() || !is_word_char(s[word_end(s, i)]),
    decreases s.len() - i,
{
    if i < s.len() && is_word_char(s[i]) {
        lemma_word_end(s, i + 1);
    }
}

/// The column-list-interior run stays within bounds, consists of interior
/// characters, and is maximal.
pub proof fn lemma_inner_end(s: Seq<char>, i: int)
    requires
        0 <= i <= s.len(),
    ensures
        i <= inner_end(s, i) <= s.len(),
        forall|j: int| i <= j < inner_end(s, i) ==> is_inner_char(#[trigger] s[j]),
        inner_end(s, i) == s.len() || !is_inner_char(s[inner_end(s, i)]),
    decreases s.len() - i,
{
    if i < s.len() && is_inner_char(s[i]) {
        lemma_inner_end(s, i + 1);
    }
}

fn is_word_exec(c: char) -> (b: bool)
    ensures
        b == is_word_char(c),
{
    ('a' <= c && c <= 'z') || ('A' <= c && c <= 'Z') || ('0' <= c && c <= '9') || c == '_'
}

fn is_space_exec(c: char) -> (b: bool)
    ensures
        b == is_space_char(c),
{
    c == ' ' || c == '\t' || c == '\n' || c == '\x0B' || c == '\x0C' || c == '\r'
}

fn is_inner_exec(c: char) -> (b: bool)
    ensures
        b == is_inner_char(c),
{
    is_word_exec(c) || is_space_exec(c) || c == ','
}

/// Computes `ws_end(s@, i)`.
pub fn scan_spaces(s: &str, n: usize, i: usize) -> (r: usize)
    requires
        n == s@.len(),
        i <= n,
    ensures
        i <= r <= n,
        r as int == ws_end(s@, i as int),
{
    let mut j: usize = i;
    while j < n
        invariant
            n == s@.len(),
            i <= j <= n,
            ws_end(s@, i as int) == ws_end(s@, j as int),
        ensures
            n == s@.len(),
            i <= j <= n,
            ws_end(s@, i as int) == ws_end(s@, j as int),
            j == n || !is_space_char(s@[j as int]),
        decreases n - j,
    {
        let c = s.get_char(j);
        if !is_space_exec(c) {
            break ;
        }
        j = j + 1;
    }
    assert(ws_end(s@, j as int) == j as int);
    j
}

/// Computes `word_end(s@, i)`.
pub fn scan_word(s: &str, n: usize, i: usize) -> (r: usize)
    requires
        n == s@.len(),
        i <= n,
    ensures
        i <= r <= n,
        r as int == word_end(s@, i as int),
{
    let mut j: usize = i;
    while j < n
        invariant
            n == s@.len(),
            i <= j <= n,
            word_end(s@, i as int) == word_end(s@, j as int),
        ensures
            n == s@.len(),
            i <= j <= n,
            word_end(s@, i as int) == word_end(s@, j as int),
            j == n || !is_word_char(s@[j as int]),
        decreases n - j,
    {
        let c = s.get_char(j);
        if !is_word_exec(c) {
            break ;
        }
        j = j + 1;
    }
    assert(word_end(s@, j as int) == j as int);
    j
}

/// Computes `inner_end(s@, i)`.
pub fn scan_inner(s: &str, n: usize, i: usize) -> (r: usize)
    requires
        n == s@.len(),
        i <= n,
    ensures
        i <= r <= n,
        r as int == inner_end(s@, i as int),
{
    let mut j: usize = i;
    while j < n
        invariant
            n == s@.len(),
            i <= j <= n,
            inner_end(s@, i as int) == inner_end(s@, j as int),
        ensures
            n == s@.len(),
            i <= j <= n,
            inner_end(s@, i as int) == inner_end(s@, j as int),
            j == n || !is_inner_char(s@[j as int]),
        decreases n - j,
    {
        let c = s.get_char(j);
        if !is_inner_exec(c) {
            break ;
        }
        j = j + 1;
    }
    assert(inner_end(s@, j as int) == j as int);
    j
}

} // verus!
