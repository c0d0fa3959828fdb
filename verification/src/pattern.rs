//! The statement pattern: recognition of `CREATE [UNIQUE] INDEX
//! [IF NOT EXISTS] <name> ON <table> (<columns>) ;` inside a text.
//!
//! `try_match_at` is the specification of one match attempt at one position:
//! each keyword is matched exactly (case-sensitively) and carries the maximal
//! run of trailing whitespace; the two optional groups are present exactly
//! when their own keywords follow; identifiers are maximal word-character
//! runs. `first_match` scans for the first position where the whole sequence
//! matches. `captures` computes both, returning the named chunks.

use vstd::prelude::*;

use crate::scan::inner_end;
use crate::scan::lemma_inner_end;
use crate::scan::lemma_word_end;
use crate::scan::lemma_ws_end;
use crate::scan::scan_inner;
use crate::scan::scan_spaces;
use crate::scan::scan_word;
use crate::scan::word_end;
use crate::scan::ws_end;

verus! {

/// The literal `lit` occurs in `s` starting at position `i`.
pub open spec fn has_lit(s: Seq<char>, i: int, lit: Seq<char>) -> bool {
    &&& 0 <= i
    &&& i + lit.len() <= s.len()
    &&& forall|k: int| 0 <= k < lit.len() ==> s[i + k] == #[trigger] lit[k]
}

pub open spec fn kw_create() -> Seq<char> {
    "CREATE"@
}

pub open spec fn kw_unique() -> Seq<char> {
    "UNIQUE"@
}

pub open spec fn kw_index() -> Seq<char> {
    "INDEX"@
}

pub open spec fn kw_if() -> Seq<char> {
    "IF"@
}

pub open spec fn kw_not() -> Seq<char> {
    "NOT"@
}

pub open spec fn kw_exists() -> Seq<char> {
    "EXISTS"@
}

pub open spec fn kw_on() -> Seq<char> {
    "ON"@
}

/// A keyword followed by at least one whitespace character: the end of the
/// keyword's chunk (keyword plus its maximal trailing whitespace run), or
/// `None` where the keyword or the whitespace is missing.
pub open spec fn kw_ws_end(s: Seq<char>, p: int, kw: Seq<char>) -> Option<int> {
    if has_lit(s, p, kw) && ws_end(s, p + kw.len()) > p + kw.len() {
        Some(ws_end(s, p + kw.len()))
    } else {
        None
    }
}

/// The optional `IF NOT EXISTS` group at `p`: the end of its chunk, or `None`
/// where any of its three keywords or their separating whitespace is missing.
pub open spec fn ine_end_at(s: Seq<char>, p: int) -> Option<int> {
    match kw_ws_end(s, p, kw_if()) {
        None => None,
        Some(a) => match kw_ws_end(s, a, kw_not()) {
            None => None,
            Some(b) => kw_ws_end(s, b, kw_exists()),
        },
    }
}

/// An identifier followed by at least one whitespace character, at `p`:
/// `(end of the word run, end of the whitespace run)`.
pub open spec fn name_ws_at(s: Seq<char>, p: int) -> Option<(int, int)> {
    let w = word_end(s, p);
    if w == p {
        None
    } else {
        let e = ws_end(s, w);
        if e == w {
            None
        } else {
            Some((w, e))
        }
    }
}

/// An identifier followed by optional whitespace, at `p`:
/// `(end of the word run, end of the whitespace run)`.
pub open spec fn table_at(s: Seq<char>, p: int) -> Option<(int, int)> {
    let w = word_end(s, p);
    if w == p {
        None
    } else {
        Some((w, ws_end(s, w)))
    }
}

/// The parenthesized column list at `p`, followed by optional whitespace and
/// the terminating `;`. Returns `(start of the captured column names, end of
/// the captured column names, end of the column chunk)`; the terminator
/// stands at the chunk's end and belongs to no chunk.
///
/// The interior must be a nonempty run of word characters, whitespace and
/// commas. The captured names drop the interior's leading whitespace, except
/// that an all-whitespace interior keeps its last character, so that the
/// capture is never empty.
pub open spec fn column_at(s: Seq<char>, p: int) -> Option<(int, int, int)> {
    if !(p < s.len() && s[p] == '(') {
        None
    } else {
        let q0 = p + 1;
        let qe = inner_end(s, q0);
        if qe == q0 {
            None
        } else if !(qe < s.len() && s[qe] == ')') {
            None
        } else {
            let e = ws_end(s, qe + 1);
            if !(e < s.len() && s[e] == ';') {
                None
            } else {
                let t = ws_end(s, q0);
                let lo = if t < qe {
                    t
                } else {
                    qe - 1
                };
                Some((lo, qe, e))
            }
        }
    }
}

/// The boundaries of one successful match: every captured chunk of the
/// statement is a subrange of the input between two of these positions.
/// The two optional groups carry the end of their chunk when present.
pub struct MatchBounds {
    pub start: int,
    pub create_end: int,
    pub unique_end: Option<int>,
    pub index_end: int,
    pub ine_end: Option<int>,
    pub name_end: int,
    pub name_chunk_end: int,
    pub on_end: int,
    pub table_end: int,
    pub table_chunk_end: int,
    pub names_lo: int,
    pub names_hi: int,
    pub column_chunk_end: int,
}

/// Where the `INDEX` chunk starts: after the `UNIQUE` chunk when that group
/// is present, else directly after the `CREATE` chunk.
pub open spec fn index_start(b: MatchBounds) -> int {
    match b.unique_end {
        Some(e) => e,
        None => b.create_end,
    }
}

/// Where the index-name chunk starts: after the `IF NOT EXISTS` chunk when
/// that group is present, else directly after the `INDEX` chunk.
pub open spec fn name_start(b: MatchBounds) -> int {
    match b.ine_end {
        Some(e) => e,
        None => b.index_end,
    }
}

/// One match attempt of the whole statement shape at position `i`.
pub open spec fn try_match_at(s: Seq<char>, i: int) -> Option<MatchBounds> {
    match kw_ws_end(s, i, kw_create()) {
        None => None,
        Some(p1) => {
            let uq = kw_ws_end(s, p1, kw_unique());
            let p2 = match uq {
                Some(e) => e,
                None => p1,
            };
            match kw_ws_end(s, p2, kw_index()) {
                None => None,
                Some(p3) => {
                    let ine = ine_end_at(s, p3);
                    let p4 = match ine {
                        Some(e) => e,
                        None => p3,
                    };
                    match name_ws_at(s, p4) {
                        None => None,
                        Some((w1, p5)) => match kw_ws_end(s, p5, kw_on()) {
                            None => None,
                            Some(p6) => match table_at(s, p6) {
                                None => None,
                                Some((w2, p7)) => match column_at(s, p7) {
                                    None => None,
                                    Some((lo, hi, p8)) => Some(
                                        MatchBounds {
                                            start: i,
                                            create_end: p1,
                                            unique_end: uq,
                                            index_end: p3,
                                            ine_end: ine,
                                            name_end: w1,
                                            name_chunk_end: p5,
                                            on_end: p6,
                                            table_end: w2,
                                            table_chunk_end: p7,
                                            names_lo: lo,
                                            names_hi: hi,
                                            column_chunk_end: p8,
                                        },
                                    ),
                                },
                            },
                        },
                    }
                },
            }
        },
    }
}

/// The first position at or after `i` where the statement shape matches,
/// with the boundaries of that match; `None` where no position matches.
pub open spec fn first_match_from(s: Seq<char>, i: int) -> Option<MatchBounds>
    decreases s.len() + 1 - i,
{
    if i > s.len() {
        None
    } else if try_match_at(s, i) is Some {
        try_match_at(s, i)
    } else {
        first_match_from(s, i + 1)
    }
}

/// The leftmost match of the statement shape in `s`, or `None` where no
/// position of `s` matches.
pub open spec fn first_match(s: Seq<char>) -> Option<MatchBounds> {
    first_match_from(s, 0)
}

proof fn lemma_kw_ws_facts(s: Seq<char>, p: int, kw: Seq<char>, e: int)
    requires
        kw_ws_end(s, p, kw) == Some(e),
    ensures
        0 <= p,
        p + kw.len() < e <= s.len(),
        p < e,
{
    lemma_ws_end(s, p + kw.len());
}

proof fn lemma_ine_facts(s: Seq<char>, p: int, e: int)
    requires
        ine_end_at(s, p) == Some(e),
    ensures
        0 <= p < e <= s.len(),
{
    let a = kw_ws_end(s, p, kw_if())->Some_0;
    lemma_kw_ws_facts(s, p, kw_if(), a);
    let b = kw_ws_end(s, a, kw_not())->Some_0;
    lemma_kw_ws_facts(s, a, kw_not(), b);
    lemma_kw_ws_facts(s, b, kw_exists(), e);
}

/// The boundaries of a successful match stand in order between the match's
/// start and the input's end; the parentheses and the terminator stand at
/// the positions the boundaries name.
pub proof fn lemma_match_bounds(s: Seq<char>, i: int, b: MatchBounds)
    requires
        try_match_at(s, i) == Some(b),
    ensures
        b.start == i,
        0 <= b.start < b.create_end,
        b.create_end <= index_start(b) < b.index_end,
        b.index_end <= name_start(b) < b.name_end < b.name_chunk_end,
        b.name_chunk_end < b.on_end < b.table_end <= b.table_chunk_end,
        b.table_chunk_end < b.names_lo < b.names_hi < b.column_chunk_end < s.len(),
        s[b.table_chunk_end] == '(',
        s[b.names_hi] == ')',
        s[b.column_chunk_end] == ';',
{
    let p1 = kw_ws_end(s, i, kw_create())->Some_0;
    lemma_kw_ws_facts(s, i, kw_create(), p1);
    let uq = kw_ws_end(s, p1, kw_unique());
    let p2 = index_start(b);
    if uq is Some {
        lemma_kw_ws_facts(s, p1, kw_unique(), uq->Some_0);
    }
    let p3 = kw_ws_end(s, p2, kw_index())->Some_0;
    lemma_kw_ws_facts(s, p2, kw_index(), p3);
    let ine = ine_end_at(s, p3);
    let p4 = name_start(b);
    if ine is Some {
        lemma_ine_facts(s, p3, ine->Some_0);
    }
    let w1 = word_end(s, p4);
    lemma_word_end(s, p4);
    let p5 = ws_end(s, w1);
    lemma_ws_end(s, w1);
    let p6 = kw_ws_end(s, p5, kw_on())->Some_0;
    lemma_kw_ws_facts(s, p5, kw_on(), p6);
    let w2 = word_end(s, p6);
    lemma_word_end(s, p6);
    let p7 = ws_end(s, w2);
    lemma_ws_end(s, w2);
    let q0 = p7 + 1;
    let qe = inner_end(s, q0);
    lemma_inner_end(s, q0);
    lemma_ws_end(s, qe + 1);
    lemma_ws_end(s, q0);
}

/// Matching is absent exactly when no position of the input satisfies the
/// full statement shape.
pub proof fn lemma_absent_iff_no_match(s: Seq<char>)
    ensures
        first_match(s) is None <==> (forall|i: int|
            0 <= i <= s.len() ==> try_match_at(s, i) is None),
{
    lemma_first_match_from_none(s, 0);
}

proof fn lemma_first_match_from_none(s: Seq<char>, i: int)
    requires
        0 <= i,
    ensures
        first_match_from(s, i) is None <==> (forall|j: int|
            i <= j <= s.len() ==> try_match_at(s, j) is None),
    decreases s.len() + 1 - i,
{
    if i > s.len() {
    } else if try_match_at(s, i) is Some {
    } else {
        lemma_first_match_from_none(s, i + 1);
    }
}

/// Where position `i` matches and no earlier position does, the leftmost
/// match is the match at `i`.
pub proof fn lemma_first_match_found(s: Seq<char>, i: int)
    requires
        0 <= i <= s.len(),
        try_match_at(s, i) is Some,
        forall|j: int| 0 <= j < i ==> try_match_at(s, j) is None,
    ensures
        first_match(s) == try_match_at(s, i),
{
    lemma_first_match_from_found(s, 0, i);
}

proof fn lemma_first_match_from_found(s: Seq<char>, i0: int, i: int)
    requires
        0 <= i0 <= i <= s.len(),
        try_match_at(s, i) is Some,
        forall|j: int| i0 <= j < i ==> try_match_at(s, j) is None,
    ensures
        first_match_from(s, i0) == try_match_at(s, i),
    decreases i - i0,
{
    if i0 < i {
        lemma_first_match_from_found(s, i0 + 1, i);
    }
}

/// The leftmost match is a match at its own start position.
pub proof fn lemma_first_match_is_match(s: Seq<char>)
    requires
        first_match(s) is Some,
    ensures
        try_match_at(s, first_match(s)->Some_0.start) == first_match(s),
{
    lemma_first_match_from_is_match(s, 0);
}

proof fn lemma_first_match_from_is_match(s: Seq<char>, i: int)
    requires
        first_match_from(s, i) is Some,
    ensures
        try_match_at(s, first_match_from(s, i)->Some_0.start) == first_match_from(s, i),
    decreases s.len() + 1 - i,
{
    if i > s.len() {
    } else if try_match_at(s, i) is Some {
        lemma_match_bounds(s, i, try_match_at(s, i)->Some_0);
    } else {
        lemma_first_match_from_is_match(s, i + 1);
    }
}

/// The two optional groups are detected independently of one another: each
/// is present in a match exactly when its own keywords with their whitespace
/// stand at its own start, whatever the other group holds.
pub proof fn lemma_optional_groups_independent(s: Seq<char>, b: MatchBounds)
    requires
        try_match_at(s, b.start) == Some(b),
    ensures
        b.unique_end == kw_ws_end(s, b.create_end, kw_unique()),
        b.ine_end == ine_end_at(s, b.index_end),
{
}

/// The named chunks of one successful match: every chunk is the exact text
/// of the input between two match boundaries, trailing whitespace included;
/// the two optional chunks are absent, not empty, where their group did not
/// occur.
pub struct CaptureSet {
    pub create_chunk: String,
    pub unique_chunk: Option<String>,
    pub index_chunk: String,
    pub if_not_exists_chunk: Option<String>,
    pub index_name_chunk: String,
    pub index_name: String,
    pub on_chunk: String,
    pub table_chunk: String,
    pub table_name: String,
    pub column_chunk: String,
    pub column_names: String,
}

/// An optional chunk agrees with the match boundaries: present with the
/// exact text of its region, or absent together with its group.
pub open spec fn opt_chunk_ok(o: Option<String>, s: Seq<char>, lo: int, oe: Option<int>) -> bool {
    match oe {
        Some(e) => o matches Some(u) && u@ == s.subrange(lo, e),
        None => o is None,
    }
}

/// The capture set holds exactly the chunks of the match described by `b`.
pub open spec fn captures_ok(s: Seq<char>, b: MatchBounds, c: CaptureSet) -> bool {
    &&& c.create_chunk@ == s.subrange(b.start, b.create_end)
    &&& opt_chunk_ok(c.unique_chunk, s, b.create_end, b.unique_end)
    &&& c.index_chunk@ == s.subrange(index_start(b), b.index_end)
    &&& opt_chunk_ok(c.if_not_exists_chunk, s, b.index_end, b.ine_end)
    &&& c.index_name_chunk@ == s.subrange(name_start(b), b.name_chunk_end)
    &&& c.index_name@ == s.subrange(name_start(b), b.name_end)
    &&& c.on_chunk@ == s.subrange(b.name_chunk_end, b.on_end)
    &&& c.table_chunk@ == s.subrange(b.on_end, b.table_chunk_end)
    &&& c.table_name@ == s.subrange(b.on_end, b.table_end)
    &&& c.column_chunk@ == s.subrange(b.table_chunk_end, b.column_chunk_end)
    &&& c.column_names@ == s.subrange(b.names_lo, b.names_hi)
}

/// Tests for `kw` at `p` followed by at least one whitespace character and
/// computes the end of the keyword's chunk, as `kw_ws_end` describes.
fn scan_kw_ws(s: &str, n: usize, p: usize, kw: &str, m: usize) -> (r: Option<usize>)
    requires
        n == s@.len(),
        p <= n,
        m == kw@.len(),
        1 <= m,
    ensures
        match r {
            Some(e) => kw_ws_end(s@, p as int, kw@) == Some(e as int) && p < e <= n,
            None => kw_ws_end(s@, p as int, kw@) is None,
        },
{
    if n - p < m {
        return None;
    }
    let mut k: usize = 0;
    let mut ok: bool = true;
    while k < m
        invariant
            n == s@.len(),
            m == kw@.len(),
            p + m <= n,
            k <= m,
            ok <==> (forall|t: int| 0 <= t < k ==> s@[p as int + t] == #[trigger] kw@[t]),
        decreases m - k,
    {
        if ok {
            let a = s.get_char(p + k);
            let c = kw.get_char(k);
            if a != c {
                ok = false;
            }
        }
        k = k + 1;
    }
    if !ok {
        assert(!has_lit(s@, p as int, kw@));
        return None;
    }
    assert(has_lit(s@, p as int, kw@));
    let e = scan_spaces(s, n, p + m);
    if e == p + m {
        return None;
    }
    Some(e)
}

/// Tests for the `IF NOT EXISTS` group at `p`, as `ine_end_at` describes.
fn scan_ine(s: &str, n: usize, p: usize) -> (r: Option<usize>)
    requires
        n == s@.len(),
        p <= n,
    ensures
        match r {
            Some(e) => ine_end_at(s@, p as int) == Some(e as int) && p < e <= n,
            None => ine_end_at(s@, p as int) is None,
        },
{
    proof {
        reveal_strlit("IF");
        reveal_strlit("NOT");
        reveal_strlit("EXISTS");
    }
    match scan_kw_ws(s, n, p, "IF", 2) {
        None => None,
        Some(a) => match scan_kw_ws(s, n, a, "NOT", 3) {
            None => None,
            Some(b) => match scan_kw_ws(s, n, b, "EXISTS", 6) {
                None => None,
                Some(e) => Some(e),
            },
        },
    }
}

/// One match attempt at position `i`: the capture set of the match there,
/// or `None` where the statement shape does not hold at `i`.
fn try_match_exec(s: &str, n: usize, i: usize) -> (r: Option<CaptureSet>)
    requires
        n == s@.len(),
        i <= n,
    ensures
        match r {
            Some(c) => try_match_at(s@, i as int) matches Some(b) && captures_ok(s@, b, c),
            None => try_match_at(s@, i as int) is None,
        },
{
    proof {
        reveal_strlit("CREATE");
        reveal_strlit("UNIQUE");
        reveal_strlit("INDEX");
        reveal_strlit("ON");
    }
    let p1 = match scan_kw_ws(s, n, i, "CREATE", 6) {
        None => {
            return None;
        },
        Some(e) => e,
    };
    let uq: Option<usize> = scan_kw_ws(s, n, p1, "UNIQUE", 6);
    let p2 = match uq {
        Some(e) => e,
        None => p1,
    };
    let p3 = match scan_kw_ws(s, n, p2, "INDEX", 5) {
        None => {
            return None;
        },
        Some(e) => e,
    };
    let ine: Option<usize> = scan_ine(s, n, p3);
    let p4 = match ine {
        Some(e) => e,
        None => p3,
    };
    let w1 = scan_word(s, n, p4);
    if w1 == p4 {
        return None;
    }
    let p5 = scan_spaces(s, n, w1);
    if p5 == w1 {
        return None;
    }
    let p6 = match scan_kw_ws(s, n, p5, "ON", 2) {
        None => {
            return None;
        },
        Some(e) => e,
    };
    let w2 = scan_word(s, n, p6);
    if w2 == p6 {
        return None;
    }
    let p7 = scan_spaces(s, n, w2);
    if p7 == n {
        return None;
    }
    if s.get_char(p7) != '(' {
        return None;
    }
    let q0 = p7 + 1;
    let qe = scan_inner(s, n, q0);
    if qe == q0 {
        return None;
    }
    if qe == n {
        return None;
    }
    if s.get_char(qe) != ')' {
        return None;
    }
    let p8 = scan_spaces(s, n, qe + 1);
    if p8 == n {
        return None;
    }
    if s.get_char(p8) != ';' {
        return None;
    }
    let t = scan_spaces(s, n, q0);
    let lo = if t < qe {
        t
    } else {
        qe - 1
    };
    let cap = CaptureSet {
        create_chunk: String::from_str(s.substring_char(i, p1)),
        unique_chunk: match uq {
            Some(e) => Some(String::from_str(s.substring_char(p1, e))),
            None => None,
        },
        index_chunk: String::from_str(s.substring_char(p2, p3)),
        if_not_exists_chunk: match ine {
            Some(e) => Some(String::from_str(s.substring_char(p3, e))),
            None => None,
        },
        index_name_chunk: String::from_str(s.substring_char(p4, p5)),
        index_name: String::from_str(s.substring_char(p4, w1)),
        on_chunk: String::from_str(s.substring_char(p5, p6)),
        table_chunk: String::from_str(s.substring_char(p6, p7)),
        table_name: String::from_str(s.substring_char(p6, w2)),
        column_chunk: String::from_str(s.substring_char(p7, p8)),
        column_names: String::from_str(s.substring_char(lo, qe)),
    };
    proof {
        let b = MatchBounds {
            start: i as int,
            create_end: p1 as int,
            unique_end: match uq {
                Some(e) => Some(e as int),
                None => None,
            },
            index_end: p3 as int,
            ine_end: match ine {
                Some(e) => Some(e as int),
                None => None,
            },
            name_end: w1 as int,
            name_chunk_end: p5 as int,
            on_end: p6 as int,
            table_end: w2 as int,
            table_chunk_end: p7 as int,
            names_lo: lo as int,
            names_hi: qe as int,
            column_chunk_end: p8 as int,
        };
        assert(try_match_at(s@, i as int) == Some(b));
        assert(captures_ok(s@, b, cap));
    }
    Some(cap)
}

/// Attempts the match at every position from the left and returns the
/// captures of the leftmost match, or `None` where no position of the input
/// satisfies the full statement shape.
pub fn captures(sql: &str) -> (r: Option<CaptureSet>)
    ensures
        match r {
            Some(c) => first_match(sql@) matches Some(b) && captures_ok(sql@, b, c),
            None => first_match(sql@) is None,
        },
{
    let n = sql.unicode_len();
    let mut i: usize = 0;
    while i < n
        invariant
            n == sql@.len(),
            i <= n,
            forall|j: int| 0 <= j < i ==> try_match_at(sql@, j) is None,
        decreases n - i,
    {
        let attempt = try_match_exec(sql, n, i);
        match attempt {
            Some(c) => {
                proof {
                    lemma_first_match_found(sql@, i as int);
                }
                return Some(c);
            },
            None => {},
        }
        i = i + 1;
    }
    proof {
        assert(try_match_at(sql@, n as int) is None) by {
            reveal_strlit("CREATE");
            assert(!has_lit(sql@, n as int, kw_create()));
        }
        lemma_absent_iff_no_match(sql@);
    }
    None
}

} // verus!
