//! Helper primitives shared by the lexers.

/// Contains the `block()` fenced-block scanner.
pub mod block;

/// Contains the `count_tabs()` indentation counter.
pub mod count_tabs;

/// Contains `find_line_ending()`.
pub mod find_line_ending;

pub use block::block;
pub use block::has_3_special_characters;
pub use count_tabs::count_tabs;
pub use find_line_ending::find_line_ending;
