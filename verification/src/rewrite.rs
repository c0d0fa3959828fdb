//! The rewriter: reassembles a matched statement from its captured chunks,
//! injecting the literal `CONCURRENTLY ` modifier once, directly after the
//! `INDEX` chunk and before any `IF NOT EXISTS` chunk.
//!
//! `rewritten_of` states the rewritten text as a function of the input and
//! the match boundaries; `lemma_rewrite_is_insertion` shows that it is the
//! matched region of the input reproduced byte for byte with the modifier
//! inserted at exactly one position, so every separator and every chunk,
//! whitespace included, comes through unchanged.

use vstd::prelude::*;

use crate::pattern::CaptureSet;
use crate::pattern::MatchBounds;
use crate::pattern::captures;
use crate::pattern::captures_ok;
use crate::pattern::first_match;
use crate::pattern::index_start;
use crate::pattern::lemma_match_bounds;
use crate::pattern::name_start;
use crate::pattern::try_match_at;

verus! {

/// The injected modifier, with its single trailing space.
pub open spec fn concurrently_lit() -> Seq<char> {
    "CONCURRENTLY "@
}

/// The statement terminator appended by the rewriter.
pub open spec fn semicolon_lit() -> Seq<char> {
    ";"@
}

/// The text of an optional chunk: its characters when present, nothing when
/// absent.
pub open spec fn opt_view(o: Option<String>) -> Seq<char> {
    match o {
        Some(u) => u@,
        None => Seq::<char>::empty(),
    }
}

/// The rewritten statement as a function of the captured chunks alone:
/// their concatenation in the fixed order, with the modifier injected after
/// the `INDEX` chunk and the terminator appended.
pub open spec fn rewritten_chunks(c: CaptureSet) -> Seq<char> {
    c.create_chunk@ + opt_view(c.unique_chunk) + c.index_chunk@ + concurrently_lit() + opt_view(
        c.if_not_exists_chunk,
    ) + c.index_name_chunk@ + c.on_chunk@ + c.table_chunk@ + c.column_chunk@ + semicolon_lit()
}

/// The rewritten statement as a function of the input and the match
/// boundaries: the chunks of the match concatenated in the fixed order,
/// with the modifier injected after the `INDEX` chunk and the terminator
/// appended. An absent optional group contributes its empty region.
pub open spec fn rewritten_of(s: Seq<char>, b: MatchBounds) -> Seq<char> {
    s.subrange(b.start, b.create_end) + s.subrange(b.create_end, index_start(b)) + s.subrange(
        index_start(b),
        b.index_end,
    ) + concurrently_lit() + s.subrange(b.index_end, name_start(b)) + s.subrange(
        name_start(b),
        b.name_chunk_end,
    ) + s.subrange(b.name_chunk_end, b.on_end) + s.subrange(b.on_end, b.table_chunk_end)
        + s.subrange(b.table_chunk_end, b.column_chunk_end) + semicolon_lit()
}

/// The rewritten statement depends on the captured chunks alone: two capture
/// sets with the same chunk texts rewrite to the same statement, so running
/// the rewriter again on the same captures yields the same result and no
/// second modifier is ever injected.
pub proof fn lemma_rewrite_function_of_chunks(c1: CaptureSet, c2: CaptureSet)
    requires
        c1.create_chunk@ == c2.create_chunk@,
        opt_view(c1.unique_chunk) == opt_view(c2.unique_chunk),
        c1.index_chunk@ == c2.index_chunk@,
        opt_view(c1.if_not_exists_chunk) == opt_view(c2.if_not_exists_chunk),
        c1.index_name_chunk@ == c2.index_name_chunk@,
        c1.on_chunk@ == c2.on_chunk@,
        c1.table_chunk@ == c2.table_chunk@,
        c1.column_chunk@ == c2.column_chunk@,
    ensures
        rewritten_chunks(c1) == rewritten_chunks(c2),
{
}

/// A capture set that holds the chunks of a match rewrites to the statement
/// that the match boundaries describe.
pub proof fn lemma_rewrite_of_captures(s: Seq<char>, b: MatchBounds, c: CaptureSet)
    requires
        try_match_at(s, b.start) == Some(b),
        captures_ok(s, b, c),
    ensures
        rewritten_chunks(c) == rewritten_of(s, b),
{
    lemma_match_bounds(s, b.start, b);
    if b.unique_end is None {
        assert(opt_view(c.unique_chunk) =~= s.subrange(b.create_end, index_start(b)));
    }
    if b.ine_end is None {
        assert(opt_view(c.if_not_exists_chunk) =~= s.subrange(b.index_end, name_start(b)));
    }
}

/// The captured chunks, concatenated in their fixed order with the
/// terminator, reproduce the matched region of the input byte for byte.
pub proof fn lemma_chunks_reproduce_input(s: Seq<char>, b: MatchBounds)
    requires
        try_match_at(s, b.start) == Some(b),
    ensures
        s.subrange(b.start, b.create_end) + s.subrange(b.create_end, index_start(b)) + s.subrange(
            index_start(b),
            b.index_end,
        ) + s.subrange(b.index_end, name_start(b)) + s.subrange(name_start(b), b.name_chunk_end)
            + s.subrange(b.name_chunk_end, b.on_end) + s.subrange(b.on_end, b.table_chunk_end)
            + s.subrange(b.table_chunk_end, b.column_chunk_end) + semicolon_lit() == s.subrange(
            b.start,
            b.column_chunk_end + 1,
        ),
{
    lemma_match_bounds(s, b.start, b);
    reveal_strlit(";");
    assert(s.subrange(b.start, b.create_end) + s.subrange(b.create_end, index_start(b))
        + s.subrange(index_start(b), b.index_end) + s.subrange(b.index_end, name_start(b))
        + s.subrange(name_start(b), b.name_chunk_end) + s.subrange(b.name_chunk_end, b.on_end)
        + s.subrange(b.on_end, b.table_chunk_end) + s.subrange(b.table_chunk_end, b.column_chunk_end)
        + semicolon_lit() =~= s.subrange(b.start, b.column_chunk_end + 1));
}

/// Whitespace fidelity: the rewritten statement is the matched region of the
/// input reproduced byte for byte, with the modifier inserted at exactly one
/// position, after the `INDEX` chunk. Every separator of the input, newline
/// or space, stands unchanged in the untouched chunks.
pub proof fn lemma_rewrite_is_insertion(s: Seq<char>, b: MatchBounds)
    requires
        try_match_at(s, b.start) == Some(b),
    ensures
        rewritten_of(s, b) == s.subrange(b.start, b.index_end) + concurrently_lit() + s.subrange(
            b.index_end,
            b.column_chunk_end + 1,
        ),
{
    lemma_match_bounds(s, b.start, b);
    reveal_strlit(";");
    assert(rewritten_of(s, b) =~= s.subrange(b.start, b.index_end) + concurrently_lit()
        + s.subrange(b.index_end, b.column_chunk_end + 1));
}

/// Column-list fidelity: the column chunk of the input reappears in the
/// rewritten statement unchanged, at the offset that the injected modifier
/// shifts it to.
pub proof fn lemma_column_list_fidelity(s: Seq<char>, b: MatchBounds)
    requires
        try_match_at(s, b.start) == Some(b),
    ensures
        ({
            let off = (b.index_end - b.start) + concurrently_lit().len() + (b.table_chunk_end
                - b.index_end);
            rewritten_of(s, b).subrange(off, off + (b.column_chunk_end - b.table_chunk_end))
                == s.subrange(b.table_chunk_end, b.column_chunk_end)
        }),
{
    lemma_match_bounds(s, b.start, b);
    lemma_rewrite_is_insertion(s, b);
    let off = (b.index_end - b.start) + concurrently_lit().len() + (b.table_chunk_end
        - b.index_end);
    assert(rewritten_of(s, b).subrange(off, off + (b.column_chunk_end - b.table_chunk_end))
        =~= s.subrange(b.table_chunk_end, b.column_chunk_end));
}

/// Reassembles the rewritten statement from the captured chunks, in the
/// fixed order, injecting the modifier once after the `INDEX` chunk.
pub fn rewrite(c: &CaptureSet) -> (r: String)
    ensures
        r@ == rewritten_chunks(*c),
{
    let mut out = String::new();
    out.append(c.create_chunk.as_str());
    match &c.unique_chunk {
        Some(u) => out.append(u.as_str()),
        None => (),
    }
    out.append(c.index_chunk.as_str());
    out.append("CONCURRENTLY ");
    match &c.if_not_exists_chunk {
        Some(u) => out.append(u.as_str()),
        None => (),
    }
    out.append(c.index_name_chunk.as_str());
    out.append(c.on_chunk.as_str());
    out.append(c.table_chunk.as_str());
    out.append(c.column_chunk.as_str());
    out.append(";");
    proof {
        assert(out@ =~= rewritten_chunks(*c));
    }
    out
}

/// Inspects one statement: where the `CREATE INDEX` shape is found, returns
/// the statement rewritten with the `CONCURRENTLY` modifier injected; where
/// no position of the input matches the shape, returns `None`.
pub fn help(sql: &str) -> (r: Option<String>)
    ensures
        match r {
            Some(out) => first_match(sql@) matches Some(b) && out@ == rewritten_of(sql@, b),
            None => first_match(sql@) is None,
        },
{
    match captures(sql) {
        None => None,
        Some(c) => {
            let out = rewrite(&c);
            proof {
                let b = first_match(sql@)->Some_0;
                crate::pattern::lemma_first_match_is_match(sql@);
                lemma_rewrite_of_captures(sql@, b, c);
            }
            Some(out)
        },
    }
}

} // verus!
