//! The fixed special bytes that the lexers recognize.

use vstd::prelude::*;

verus! {

/// Line terminator.
pub const NEW_LINE: u8 = 10;

/// Indentation unit, and the terminator of simplexes, complexes and attacher labels.
pub const TAB: u8 = 9;

/// Secondary separator: follows the colon of an attacher, pads attacher content.
pub const SPACE: u8 = 32;

/// Marks comments, both line comments and the fences of block comments.
pub const POUND_SIGN: u8 = 35;

/// Marks othertongues, both line othertongues and the fences of block othertongues.
pub const EQUAL: u8 = 61;

/// Separates an attacher's label from its content.
pub const COLON: u8 = 58;

/// Terminates a simplex.
pub const VERTICAL_LINE: u8 = 124;

} // verus!
