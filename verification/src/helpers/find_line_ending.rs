//! Scan for the end of the current line.

use vstd::prelude::*;
use crate::special_characters::NEW_LINE;

verus! {

/// The first index at or after `offset` holding a newline; the buffer length
/// when there is none; `offset` itself when it already lies outside the buffer.
pub open spec fn line_ending_at(s: Seq<u8>, offset: int) -> int
    decreases s.len() - offset,
{
    if !(0 <= offset < s.len()) {
        offset
    } else if s[offset] == NEW_LINE {
        offset
    } else {
        line_ending_at(s, offset + 1)
    }
}

/// Characterization of [`line_ending_at`]: it never moves backwards, stays in
/// the buffer for in-range offsets, skips only non-newline bytes, and stops on
/// a newline or at the end.
pub proof fn lemma_line_ending_at(s: Seq<u8>, offset: int)
    requires
        0 <= offset,
    ensures
        offset <= line_ending_at(s, offset),
        offset <= s.len() ==> line_ending_at(s, offset) <= s.len(),
        forall|j: int| offset <= j < line_ending_at(s, offset) ==> s[j] != NEW_LINE,
        line_ending_at(s, offset) < s.len() ==> s[line_ending_at(s, offset)] == NEW_LINE,
    decreases s.len() - offset,
{
    if 0 <= offset < s.len() && s[offset] != NEW_LINE {
        lemma_line_ending_at(s, offset + 1);
    }
}

/// Returns the index of the first line ending found in the source.
///
/// The scan starts at `offset`. If there is no line ending from the offset up
/// to the last index, the source's length is returned.
pub fn find_line_ending(src: &[u8], offset: usize) -> (r: usize)
    ensures
        r == line_ending_at(src@, offset as int),
{
    let mut i = offset;
    while i < src.len() && src[i] != NEW_LINE
        invariant
            offset <= i,
            line_ending_at(src@, offset as int) == line_ending_at(src@, i as int),
        decreases src@.len() - i,
    {
        i = i + 1;
    }
    i
}

} // verus!
