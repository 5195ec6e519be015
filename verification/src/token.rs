//! The external-facing token type and its mathematical model.

use vstd::prelude::*;
use crate::span::Span;

verus! {

/// One token of the output stream: a relabeling of [`crate::RawToken`]
/// without the `Empty`, `Invalid` and `Block` control-flow variants. The
/// dispatcher guarantees one of these variants for every line.
#[derive(Debug, PartialEq)]
pub enum Token {
    ScopeLevel(usize),
    LineComment(Span),
    BlockComment(Vec<Span>),
    Simplex(Span),
    Complex(Span),
    Attacher(Span, Span),
    LineOthertongue(Span),
    BlockOthertongue(Vec<Span>),
}

/// The mathematical model of a [`Token`]: the same variants over `int` and
/// `Seq`, used by the contracts of [`crate::any`] and [`crate::lex`].
pub ghost enum TokenModel {
    ScopeLevel(int),
    LineComment(Span),
    BlockComment(Seq<Span>),
    Simplex(Span),
    Complex(Span),
    Attacher(Span, Span),
    LineOthertongue(Span),
    BlockOthertongue(Seq<Span>),
}

impl View for Token {
    type V = TokenModel;

    open spec fn view(&self) -> TokenModel {
        match self {
            Token::ScopeLevel(depth) => TokenModel::ScopeLevel(*depth as int),
            Token::LineComment(span) => TokenModel::LineComment(*span),
            Token::BlockComment(lines) => TokenModel::BlockComment(lines@),
            Token::Simplex(span) => TokenModel::Simplex(*span),
            Token::Complex(span) => TokenModel::Complex(*span),
            Token::Attacher(label, content) => TokenModel::Attacher(*label, *content),
            Token::LineOthertongue(span) => TokenModel::LineOthertongue(*span),
            Token::BlockOthertongue(lines) => TokenModel::BlockOthertongue(lines@),
        }
    }
}

} // verus!
