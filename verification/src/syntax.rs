//! Syntax highlighting classes.
//!
//! Highlighting itself is not part of the core; only the vocabulary of
//! highlight classes that a future tokenizer would assign to text runs.

use vstd::prelude::*;

verus! {

/// The highlight class of a text run.
#[derive(Debug, Clone, Copy, PartialEq, Eq, Structural)]
pub enum HLMode {
    Normal,
    Symbol,
    Number,
    String,
    Comment,
    Type,
    Call,
    Keyword,
    Special,
    Reserved,
}

} // verus!
