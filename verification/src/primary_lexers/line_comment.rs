//! Recognizer for line comments.

use vstd::prelude::*;
use crate::helpers::find_line_ending::find_line_ending;
use crate::helpers::find_line_ending::lemma_line_ending_at;
use crate::helpers::find_line_ending::line_ending_at;
use crate::raw_token::RawToken;
use crate::span::Span;
use crate::special_characters::POUND_SIGN;

verus! {

/// Returns the info of a recognized line comment and its last index occupied
/// in the source.
///
/// A line comment is a pound sign at `offset` whose body runs to the line
/// ending, which is counted as the last index but kept out of the span. With
/// no character at the offset the result is `Empty`; with another byte there
/// it is `Invalid`, and the offset is handed back unchanged.
pub fn line_comment(src: &[u8], offset: usize) -> (r: (RawToken, usize))
    ensures
        offset < src@.len() && src@[offset as int] == POUND_SIGN ==> {
            let end = line_ending_at(src@, offset + 1);
            r == (RawToken::LineComment(Span { start: (offset + 1) as usize, end: end as usize }),
            end as usize) && end <= src@.len()
        },
        offset >= src@.len() ==> r == (RawToken::Empty, offset),
        offset < src@.len() && src@[offset as int] != POUND_SIGN ==> r == (
            RawToken::Invalid,
            offset,
        ),
{
    if offset < src.len() && src[offset] == POUND_SIGN {
        proof {
            lemma_line_ending_at(src@, offset + 1);
        }
        let start = offset + 1;
        let end = find_line_ending(src, start);
        (RawToken::LineComment(Span { start, end }), end)
    } else if offset >= src.len() {
        (RawToken::Empty, offset)
    } else {
        (RawToken::Invalid, offset)
    }
}

} // verus!
