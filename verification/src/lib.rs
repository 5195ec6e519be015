//! Tokenizer for an indentation-sensitive outline markup language.
//!
//! Lines nest by tab depth, and each line's content is one of several
//! mutually exclusive leaf forms: a pipe-terminated phrase (simplex), a
//! free-form phrase running to the end of the line (complex), a
//! `label:	content` pair (attacher), a comment (line or fenced block), or an
//! escape into verbatim foreign text (othertongue, line or fenced block).
//!
//! The tokenizer never owns bytes: every token carries [`Span`]s, half-open
//! byte ranges into the caller's buffer. [`lex`] drives the whole buffer and
//! emits a flat token queue; [`any`] resolves one line; the modules under
//! [`primary_lexers`] each recognize a single leaf form.
#![verifier::loop_isolation(false)]

pub mod delimeter;
pub mod helpers;
pub mod primary_lexers;
mod raw_token;
pub mod secondary_lexers;
pub mod span;
pub mod special_characters;
mod token;

pub use raw_token::RawToken;
pub use secondary_lexers::any;
pub use secondary_lexers::lex;
pub use span::Span;
pub use token::Token;
pub use token::TokenModel;
