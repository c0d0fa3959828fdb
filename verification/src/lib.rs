//! Recognise a SQL `CREATE INDEX` statement inside a text and rewrite it with
//! the `CONCURRENTLY` modifier injected after the `INDEX` keyword.
//!
//! The statement is decomposed into named chunks (keywords, optional
//! modifiers, identifiers, the parenthesized column list), each carrying its
//! trailing whitespace exactly as it appeared, so that the rewritten statement
//! reproduces the matched input byte for byte apart from the one injected
//! modifier.

pub mod pattern;
pub mod rewrite;
pub mod scan;
