//! Recognizer for attachers: `label:	content` pairs.

use vstd::prelude::*;
use crate::delimeter::Delimeter;
use crate::primary_lexers::complex::determine_ending;
use crate::primary_lexers::complex::lemma_padding_end;
use crate::primary_lexers::complex::padding_delimeter;
use crate::primary_lexers::complex::padding_end;
use crate::raw_token::RawToken;
use crate::span::Span;
use crate::special_characters::COLON;
use crate::special_characters::NEW_LINE;
use crate::special_characters::SPACE;
use crate::special_characters::TAB;

verus! {

/// Classification of the byte at `offset` for the attacher's label scan: a
/// colon followed by a tab or space separates label from content (`Pad`), a
/// colon followed by a newline or the end of the buffer rules the attacher out
/// (`Invalid`), as does a bare newline or tab; the end of the buffer is
/// `Limit`, and every other byte is walked past.
pub open spec fn separator_delimeter(s: Seq<u8>, offset: int) -> Delimeter {
    if 0 <= offset < s.len() && s[offset] == COLON {
        if offset + 1 < s.len() && (s[offset + 1] == TAB || s[offset + 1] == SPACE) {
            Delimeter::Pad
        } else if offset + 1 >= s.len() || s[offset + 1] == NEW_LINE {
            Delimeter::Invalid
        } else {
            Delimeter::Incorrect
        }
    } else if 0 <= offset < s.len() && (s[offset] == NEW_LINE || s[offset] == TAB) {
        Delimeter::Invalid
    } else if !(0 <= offset < s.len()) {
        Delimeter::Limit
    } else {
        Delimeter::Incorrect
    }
}

/// The first index at or after `offset` where the label scan decides: a
/// separating colon ([`separator_hit`]) or a position that rules the attacher out.
pub open spec fn separator_end(s: Seq<u8>, offset: int) -> int
    decreases s.len() - offset,
{
    if separator_delimeter(s, offset) is Incorrect {
        separator_end(s, offset + 1)
    } else {
        offset
    }
}

/// True when the label scan from `offset` ends on a separating colon: one
/// directly followed by a tab or a space.
pub open spec fn separator_hit(s: Seq<u8>, offset: int) -> bool {
    separator_delimeter(s, separator_end(s, offset)) is Pad
}

/// The first index at or after `offset` that holds neither a tab nor a space:
/// where the attacher's content begins after the separator's padding.
pub open spec fn pad_run_end(s: Seq<u8>, offset: int) -> int
    decreases s.len() - offset,
{
    if 0 <= offset < s.len() && (s[offset] == TAB || s[offset] == SPACE) {
        pad_run_end(s, offset + 1)
    } else {
        offset
    }
}

/// Characterization of [`separator_end`].
pub proof fn lemma_separator_end(s: Seq<u8>, offset: int)
    requires
        0 <= offset,
    ensures
        offset <= separator_end(s, offset),
        offset <= s.len() ==> separator_end(s, offset) <= s.len(),
        separator_hit(s, offset) ==> separator_end(s, offset) + 1 < s.len(),
    decreases s.len() - offset,
{
    if separator_delimeter(s, offset) is Incorrect {
        lemma_separator_end(s, offset + 1);
    }
}

/// Characterization of [`pad_run_end`].
pub proof fn lemma_pad_run_end(s: Seq<u8>, offset: int)
    requires
        0 <= offset,
    ensures
        offset <= pad_run_end(s, offset),
        offset <= s.len() ==> pad_run_end(s, offset) <= s.len(),
        pad_run_end(s, offset) < s.len() ==> (s[pad_run_end(s, offset)] != TAB && s[pad_run_end(
            s,
            offset,
        )] != SPACE),
    decreases s.len() - offset,
{
    if 0 <= offset < s.len() && (s[offset] == TAB || s[offset] == SPACE) {
        lemma_pad_run_end(s, offset + 1);
    }
}

/// Tells how the byte at `offset` ends, fails or continues the label scan.
fn determine_separator(src: &[u8], offset: usize) -> (d: Delimeter)
    ensures
        d == separator_delimeter(src@, offset as int),
{
    if offset < src.len() && src[offset] == COLON {
        let next_offset = offset + 1;
        if next_offset < src.len() && (src[next_offset] == TAB || src[next_offset] == SPACE) {
            Delimeter::Pad
        } else if next_offset >= src.len() || src[next_offset] == NEW_LINE {
            Delimeter::Invalid
        } else {
            Delimeter::Incorrect
        }
    } else if offset < src.len() && (src[offset] == NEW_LINE || src[offset] == TAB) {
        Delimeter::Invalid
    } else if offset >= src.len() {
        Delimeter::Limit
    } else {
        Delimeter::Incorrect
    }
}

/// Returns the info of a recognized attacher and the last index that has been
/// checked in the source.
///
/// The label scan starts at the search offset and looks for a colon directly
/// followed by a tab or a space; the label span starts at the slice offset and
/// ends right before the colon. The content starts after the run of tabs and
/// spaces that follows the colon and runs to the next newline, tab or end of
/// buffer, under the same ending rule as a complex. An attacher with no
/// content before the line or buffer ends is `Invalid`, as is a line whose
/// colon is missing or badly followed.
pub fn attacher(src: &[u8], slice_offset: usize, search_offset: usize) -> (r: (RawToken, usize))
    requires
        slice_offset <= search_offset <= src@.len(),
    ensures
        ({
            let p = separator_end(src@, search_offset as int);
            if separator_hit(src@, search_offset as int) {
                let q = pad_run_end(src@, p + 1);
                if q < src@.len() && padding_end(src@, q) > q {
                    r == (RawToken::Attacher(
                        Span { start: slice_offset, end: p as usize },
                        Span { start: q as usize, end: padding_end(src@, q) as usize },
                    ),
                    padding_end(src@, q) as usize)
                } else {
                    r == (RawToken::Invalid, q as usize)
                }
            } else {
                r == (RawToken::Invalid, p as usize)
            }
        }),
        r.1 <= src@.len(),
{
    proof {
        crate::span::lemma_source_len_fits(src);
        lemma_separator_end(src@, search_offset as int);
    }
    let mut i = search_offset;
    let mut separator = determine_separator(src, i);
    while separator == Delimeter::Incorrect
        invariant
            search_offset <= i <= src@.len(),
            separator_end(src@, search_offset as int) == separator_end(src@, i as int),
            separator == separator_delimeter(src@, i as int),
        decreases src@.len() - i,
    {
        i = i + 1;
        separator = determine_separator(src, i);
    }
    match separator {
        Delimeter::Pad => {},
        _ => {
            return (RawToken::Invalid, i);
        },
    }
    let label = Span { start: slice_offset, end: i };
    proof {
        lemma_pad_run_end(src@, i + 1);
    }
    i = i + 1;
    while i < src.len() && (src[i] == TAB || src[i] == SPACE)
        invariant
            label.end + 1 <= i <= src@.len(),
            pad_run_end(src@, label.end + 1) == pad_run_end(src@, i as int),
        decreases src@.len() - i,
    {
        i = i + 1;
    }
    if i >= src.len() {
        return (RawToken::Invalid, i);
    }
    let content_start = i;
    proof {
        lemma_padding_end(src@, content_start as int);
    }
    let mut ending = determine_ending(src, i);
    while ending == Delimeter::Incorrect
        invariant
            content_start <= i <= src@.len(),
            padding_end(src@, content_start as int) == padding_end(src@, i as int),
            ending == padding_delimeter(src@, i as int),
        decreases src@.len() - i,
    {
        i = i + 1;
        ending = determine_ending(src, i);
    }
    if i == content_start {
        // The line or buffer ends right where the content would begin: an
        // attacher without content is no attacher.
        return (RawToken::Invalid, i);
    }
    (RawToken::Attacher(label, Span { start: content_start, end: i }), i)
}

} // verus!
