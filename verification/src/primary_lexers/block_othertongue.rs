//! Recognizer for block othertongues.

use vstd::prelude::*;
use crate::helpers::block::block;
use crate::helpers::block::block_end_spec;
use crate::helpers::block::block_lines_spec;
use crate::helpers::block::fence3_at;
use crate::raw_token::RawToken;
use crate::special_characters::EQUAL;

verus! {

/// Returns the info of a recognized block othertongue and its probably last
/// seen index in the source.
///
/// A block othertongue is a fenced block whose delimiter byte is the equals
/// sign; its closing fence must be indented by exactly `tab_count` tabs. With
/// no three equals signs at the offset the result is `Empty` at the end of the
/// buffer and `Invalid` elsewhere, with the offset handed back unchanged.
pub fn block_othertongue(src: &[u8], offset: usize, tab_count: usize) -> (r: (RawToken, usize))
    ensures
        fence3_at(src@, offset as int, EQUAL) ==> ({
            &&& r.0 matches RawToken::BlockOthertongue(v) && v@ == block_lines_spec(
                src@,
                offset as int,
                tab_count as int,
                EQUAL,
            )
            &&& r.1 == block_end_spec(src@, offset as int, tab_count as int, EQUAL)
            &&& r.1 <= src@.len()
        }),
        !fence3_at(src@, offset as int, EQUAL) && offset >= src@.len() ==> r == (
            RawToken::Empty,
            offset,
        ),
        !fence3_at(src@, offset as int, EQUAL) && offset < src@.len() ==> r == (
            RawToken::Invalid,
            offset,
        ),
{
    let (raw_token, last_seen_index) = block(src, offset, tab_count, EQUAL);
    match raw_token {
        RawToken::Block(lines) => (RawToken::BlockOthertongue(lines), last_seen_index),
        other => (other, last_seen_index),
    }
}

} // verus!
