//! The lexers that produce tokens usable for lexing and parsing: the
//! per-line dispatcher and the whole-buffer stream tokenizer.

/// Contains the `any()` dispatcher.
pub mod any;

/// Contains the `lex()` stream tokenizer.
pub mod lex;

pub use any::any;
pub use lex::lex;
