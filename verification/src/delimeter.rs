//! Classification of the byte at a scan position.

use vstd::prelude::*;

verus! {

/// What a lexer's scan finds at one position.
///
/// `Pad` is a terminator that ends the scanned token, `Limit` is the end of
/// the buffer, `Incorrect` is an ordinary byte the scan walks past, and
/// `Invalid` rules the whole token out at this position.
#[derive(Clone, Copy, Debug, PartialEq, Eq, Structural)]
pub enum Delimeter {
    Pad,
    Limit,
    Incorrect,
    Invalid,
}

} // verus!
