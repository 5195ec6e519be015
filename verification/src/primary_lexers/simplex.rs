//! Recognizer for simplexes: pipe-terminated phrases.

use vstd::prelude::*;
use crate::delimeter::Delimeter;
use crate::raw_token::RawToken;
use crate::span::Span;
use crate::special_characters::NEW_LINE;
use crate::special_characters::TAB;
use crate::special_characters::VERTICAL_LINE;

verus! {

/// Classification of the byte at `offset` for the simplex scan: a vertical
/// line directly followed by a newline or tab terminates the simplex (`Pad`),
/// one followed by the end of the buffer does too (`Limit`), a bare newline,
/// tab or end of buffer rules the simplex out (`Invalid`), and every other
/// byte, a vertical line with ordinary successor included, is walked past.
pub open spec fn simplex_delimeter(s: Seq<u8>, offset: int) -> Delimeter {
    if 0 <= offset < s.len() && s[offset] == VERTICAL_LINE {
        if offset + 1 < s.len() && (s[offset + 1] == NEW_LINE || s[offset + 1] == TAB) {
            Delimeter::Pad
        } else if offset + 1 >= s.len() {
            Delimeter::Limit
        } else {
            Delimeter::Incorrect
        }
    } else if 0 <= offset < s.len() && (s[offset] == NEW_LINE || s[offset] == TAB) {
        Delimeter::Invalid
    } else if !(0 <= offset < s.len()) {
        Delimeter::Invalid
    } else {
        Delimeter::Incorrect
    }
}

/// The first index at or after `offset` where the simplex scan decides: either
/// a valid terminator ([`simplex_hit`]) or a position that rules the simplex out.
pub open spec fn simplex_scan_end(s: Seq<u8>, offset: int) -> int
    decreases s.len() - offset,
{
    if simplex_delimeter(s, offset) is Incorrect {
        simplex_scan_end(s, offset + 1)
    } else {
        offset
    }
}

/// True when the simplex scan from `offset` ends on a valid terminator: a
/// vertical line whose successor is a newline, a tab or the end of the buffer.
pub open spec fn simplex_hit(s: Seq<u8>, offset: int) -> bool {
    simplex_delimeter(s, simplex_scan_end(s, offset)) is Pad || simplex_delimeter(
        s,
        simplex_scan_end(s, offset),
    ) is Limit
}

/// Characterization of [`simplex_scan_end`].
pub proof fn lemma_simplex_scan_end(s: Seq<u8>, offset: int)
    requires
        0 <= offset,
    ensures
        offset <= simplex_scan_end(s, offset),
        offset <= s.len() ==> simplex_scan_end(s, offset) <= s.len(),
        simplex_hit(s, offset) ==> simplex_scan_end(s, offset) < s.len(),
        !(simplex_delimeter(s, simplex_scan_end(s, offset)) is Incorrect),
    decreases s.len() - offset,
{
    if simplex_delimeter(s, offset) is Incorrect {
        lemma_simplex_scan_end(s, offset + 1);
    }
}

/// Tells how the byte at `offset` ends, fails or continues the simplex scan.
fn determine_ending(src: &[u8], offset: usize) -> (d: Delimeter)
    ensures
        d == simplex_delimeter(src@, offset as int),
{
    if offset < src.len() && src[offset] == VERTICAL_LINE {
        let next_offset = offset + 1;
        if next_offset < src.len() && (src[next_offset] == NEW_LINE || src[next_offset] == TAB) {
            Delimeter::Pad
        } else if next_offset >= src.len() {
            Delimeter::Limit
        } else {
            Delimeter::Incorrect
        }
    } else if offset < src.len() && (src[offset] == NEW_LINE || src[offset] == TAB) {
        Delimeter::Invalid
    } else if offset >= src.len() {
        Delimeter::Invalid
    } else {
        Delimeter::Incorrect
    }
}

/// Returns the info of a recognized simplex and the last index that has been
/// checked in the source.
///
/// The scan starts at the search offset and looks for a vertical line directly
/// followed by a newline, a tab or the end of the buffer; the span starts at
/// the slice offset and excludes the vertical line, which is still consumed.
/// A newline, tab or end of buffer reached first gives `Invalid`. This lexer
/// does not differentiate attachers, whose content may end in a vertical line:
/// use the attacher lexer first.
pub fn simplex(src: &[u8], slice_offset: usize, search_offset: usize) -> (r: (RawToken, usize))
    requires
        slice_offset <= search_offset <= src@.len(),
    ensures
        ({
            let d = simplex_scan_end(src@, search_offset as int);
            if simplex_hit(src@, search_offset as int) {
                r == (RawToken::Simplex(Span { start: slice_offset, end: d as usize }), (d
                    + 1) as usize)
            } else {
                r == (RawToken::Invalid, d as usize)
            }
        }),
        r.1 <= src@.len(),
{
    proof {
        crate::span::lemma_source_len_fits(src);
        lemma_simplex_scan_end(src@, search_offset as int);
    }
    let mut i = search_offset;
    let mut ending = determine_ending(src, i);
    while ending == Delimeter::Incorrect
        invariant
            search_offset <= i <= src@.len(),
            simplex_scan_end(src@, search_offset as int) == simplex_scan_end(src@, i as int),
            ending == simplex_delimeter(src@, i as int),
        decreases src@.len() - i,
    {
        i = i + 1;
        ending = determine_ending(src, i);
    }
    match ending {
        Delimeter::Invalid => (RawToken::Invalid, i),
        _ => (RawToken::Simplex(Span { start: slice_offset, end: i }), i + 1),
    }
}

} // verus!
