//! Recognizer for complexes: the fallback leaf form.

use vstd::prelude::*;
use crate::delimeter::Delimeter;
use crate::primary_lexers::line_othertongue::determine_othertongue_prefix;
use crate::primary_lexers::line_othertongue::othertongue_prefix_at;
use crate::raw_token::RawToken;
use crate::span::Span;
use crate::special_characters::NEW_LINE;
use crate::special_characters::SPACE;
use crate::special_characters::TAB;

verus! {

/// Classification of the byte at `offset` for the shared scan-to-terminator
/// rule of complexes and attacher content: a newline or tab ends the token
/// (`Pad`), as does a space directly followed by the equals-then-space prefix
/// of an inline othertongue; the end of the buffer ends it too (`Limit`), and
/// every other byte is walked past (`Incorrect`).
pub open spec fn padding_delimeter(s: Seq<u8>, offset: int) -> Delimeter {
    if 0 <= offset < s.len() && (s[offset] == NEW_LINE || s[offset] == TAB) {
        Delimeter::Pad
    } else if 0 <= offset < s.len() && s[offset] == SPACE && othertongue_prefix_at(
        s,
        offset + 1,
    ) {
        Delimeter::Pad
    } else if !(0 <= offset < s.len()) {
        Delimeter::Limit
    } else {
        Delimeter::Incorrect
    }
}

/// The first index at or after `offset` where the shared scan stops: the next
/// newline, tab or inline othertongue, or the buffer length when none occurs.
pub open spec fn padding_end(s: Seq<u8>, offset: int) -> int
    decreases s.len() - offset,
{
    if padding_delimeter(s, offset) is Incorrect {
        padding_end(s, offset + 1)
    } else {
        offset
    }
}

/// Characterization of [`padding_end`].
pub proof fn lemma_padding_end(s: Seq<u8>, offset: int)
    requires
        0 <= offset,
    ensures
        offset <= padding_end(s, offset),
        offset <= s.len() ==> padding_end(s, offset) <= s.len(),
        forall|j: int|
            offset <= j < padding_end(s, offset) ==> padding_delimeter(s, j) is Incorrect,
        !(padding_delimeter(s, padding_end(s, offset)) is Incorrect),
    decreases s.len() - offset,
{
    if padding_delimeter(s, offset) is Incorrect {
        lemma_padding_end(s, offset + 1);
    }
}

/// Tells how the byte at `offset` ends, or does not end, the scan of a complex
/// or of attacher content.
pub(crate) fn determine_ending(src: &[u8], offset: usize) -> (d: Delimeter)
    ensures
        d == padding_delimeter(src@, offset as int),
{
    if offset < src.len() && (src[offset] == NEW_LINE || src[offset] == TAB) {
        Delimeter::Pad
    } else if offset < src.len() && src[offset] == SPACE {
        match determine_othertongue_prefix(src, offset + 1) {
            Delimeter::Pad => Delimeter::Pad,
            _ => Delimeter::Incorrect,
        }
    } else if offset >= src.len() {
        Delimeter::Limit
    } else {
        Delimeter::Incorrect
    }
}

/// Returns the info of a recognized complex and the last index that has been
/// checked in the source.
///
/// The scan starts at the search offset and runs to the first newline, tab or
/// end of the buffer, or to the space that opens an inline othertongue; the
/// span starts at the slice offset. A complex never fails and may be
/// zero-width: it is the fallback of last resort. This lexer does not
/// differentiate simplexes and attachers: use those lexers first.
pub fn complex(src: &[u8], slice_offset: usize, search_offset: usize) -> (r: (RawToken, usize))
    requires
        slice_offset <= search_offset <= src@.len(),
    ensures
        r.1 == padding_end(src@, search_offset as int),
        r.1 <= src@.len(),
        r.0 == RawToken::Complex(Span { start: slice_offset, end: r.1 }),
{
    proof {
        crate::span::lemma_source_len_fits(src);
        lemma_padding_end(src@, search_offset as int);
    }
    let mut i = search_offset;
    let mut ending = determine_ending(src, i);
    while ending == Delimeter::Incorrect
        invariant
            search_offset <= i <= src@.len(),
            padding_end(src@, search_offset as int) == padding_end(src@, i as int),
            ending == padding_delimeter(src@, i as int),
        decreases src@.len() - i,
    {
        i = i + 1;
        ending = determine_ending(src, i);
    }
    (RawToken::Complex(Span { start: slice_offset, end: i }), i)
}

} // verus!
