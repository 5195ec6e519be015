//! The lexers that each recognize a single leaf form. They return raw tokens
//! usable for lexing only; the dispatcher relabels them into [`crate::Token`].

/// Contains the `attacher()` lexer.
pub mod attacher;

/// Contains the `block_comment()` lexer.
pub mod block_comment;

/// Contains the `block_othertongue()` lexer.
pub mod block_othertongue;

/// Contains the `complex()` lexer and its `determine_ending()`.
pub mod complex;

/// Contains the `line_comment()` lexer.
pub mod line_comment;

/// Contains the `line_othertongue()` lexer.
pub mod line_othertongue;

/// Contains the `simplex()` lexer.
pub mod simplex;

pub use attacher::attacher;
pub use block_comment::block_comment;
pub use block_othertongue::block_othertongue;
pub use complex::complex;
pub use line_comment::line_comment;
pub use line_othertongue::determine_othertongue_prefix;
pub use line_othertongue::line_othertongue;
pub use simplex::simplex;
