//! Recognizer for line othertongues.

use vstd::prelude::*;
use crate::delimeter::Delimeter;
use crate::helpers::find_line_ending::find_line_ending;
use crate::helpers::find_line_ending::lemma_line_ending_at;
use crate::helpers::find_line_ending::line_ending_at;
use crate::raw_token::RawToken;
use crate::span::Span;
use crate::special_characters::EQUAL;
use crate::special_characters::SPACE;

verus! {

/// True when the two bytes at `offset` are an equals sign followed by a space:
/// the prefix that opens a line othertongue.
pub open spec fn othertongue_prefix_at(s: Seq<u8>, offset: int) -> bool {
    &&& 0 <= offset
    &&& offset + 1 < s.len()
    &&& s[offset] == EQUAL
    &&& s[offset + 1] == SPACE
}

/// Tells whether the bytes at `offset` open a line othertongue: `Pad` when the
/// equals-then-space prefix is there, `Invalid` otherwise.
pub fn determine_othertongue_prefix(src: &[u8], offset: usize) -> (d: Delimeter)
    ensures
        d == (if othertongue_prefix_at(src@, offset as int) {
            Delimeter::Pad
        } else {
            Delimeter::Invalid
        }),
{
    if offset < src.len() && src[offset] == EQUAL && offset + 1 < src.len() && src[offset + 1]
        == SPACE {
        Delimeter::Pad
    } else {
        Delimeter::Invalid
    }
}

/// Returns the info of a recognized line othertongue and the last index that
/// has been checked in the source.
///
/// A line othertongue is valid only if `offset` holds the two bytes of an
/// equals sign then a space; its content runs from right after that prefix to
/// the line ending. Any other prefix gives `Invalid` with no bytes consumed.
pub fn line_othertongue(src: &[u8], offset: usize) -> (r: (RawToken, usize))
    ensures
        othertongue_prefix_at(src@, offset as int) ==> {
            let end = line_ending_at(src@, offset + 2);
            r == (RawToken::LineOthertongue(
                Span { start: (offset + 2) as usize, end: end as usize },
            ),
            end as usize) && end <= src@.len()
        },
        !othertongue_prefix_at(src@, offset as int) ==> r == (RawToken::Invalid, offset),
{
    match determine_othertongue_prefix(src, offset) {
        Delimeter::Pad => {
            proof {
                crate::span::lemma_source_len_fits(src);
                lemma_line_ending_at(src@, offset + 2);
            }
            let start = offset + 2;
            let end = find_line_ending(src, start);
            (RawToken::LineOthertongue(Span { start, end }), end)
        },
        _ => (RawToken::Invalid, offset),
    }
}

} // verus!
