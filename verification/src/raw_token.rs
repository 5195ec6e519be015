//! The raw tokens used for lexing only.

use vstd::prelude::*;
use crate::span::Span;

verus! {

/// The lexer-internal result sum type.
///
/// `Empty` (nothing left to scan) and `Invalid` (pattern mismatch) are local
/// control-flow signals that drive the dispatcher's fallback chain and never
/// escape it; the remaining variants relabel one-to-one into [`crate::Token`].
/// `Block` is the shared form that [`crate::helpers::block`] returns before a
/// caller relabels it as a block comment or a block othertongue.
#[derive(Debug, PartialEq)]
pub enum RawToken {
    Empty,
    Invalid,
    ScopeLevel(usize),
    Block(Vec<Span>),
    LineComment(Span),
    BlockComment(Vec<Span>),
    Simplex(Span),
    Complex(Span),
    Attacher(Span, Span),
    LineOthertongue(Span),
    BlockOthertongue(Vec<Span>),
}

} // verus!
