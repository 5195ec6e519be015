//! The dispatcher: chooses and sequences the primary lexers for one line.

use vstd::prelude::*;
use vstd::pervasive::unreached;
use vstd::slice::slice_subrange;
use crate::helpers::block::block_end_spec;
use crate::helpers::block::block_lines_spec;
use crate::helpers::block::fence3_at;
use crate::helpers::block::lemma_block_scan;
use crate::helpers::block::opening_end;
use crate::helpers::count_tabs::count_tabs;
use crate::helpers::count_tabs::count_tabs_spec;
use crate::helpers::count_tabs::lemma_count_tabs_fixpoint;
use crate::helpers::count_tabs::lemma_count_tabs_le_len;
use crate::helpers::find_line_ending::lemma_line_ending_at;
use crate::helpers::find_line_ending::line_ending_at;
use crate::primary_lexers::attacher::attacher;
use crate::primary_lexers::attacher::lemma_pad_run_end;
use crate::primary_lexers::attacher::lemma_separator_end;
use crate::primary_lexers::attacher::pad_run_end;
use crate::primary_lexers::attacher::separator_end;
use crate::primary_lexers::attacher::separator_hit;
use crate::primary_lexers::block_comment::block_comment;
use crate::primary_lexers::block_othertongue::block_othertongue;
use crate::primary_lexers::complex::complex;
use crate::primary_lexers::complex::lemma_padding_end;
use crate::primary_lexers::complex::padding_end;
use crate::primary_lexers::line_comment::line_comment;
use crate::primary_lexers::line_othertongue::line_othertongue;
use crate::primary_lexers::line_othertongue::othertongue_prefix_at;
use crate::primary_lexers::simplex::lemma_simplex_scan_end;
use crate::primary_lexers::simplex::simplex;
use crate::primary_lexers::simplex::simplex_hit;
use crate::primary_lexers::simplex::simplex_scan_end;
use crate::raw_token::RawToken;
use crate::span::lemma_source_len_fits;
use crate::span::Span;
use crate::special_characters::EQUAL;
use crate::special_characters::NEW_LINE;
use crate::special_characters::POUND_SIGN;
use crate::special_characters::TAB;
use crate::token::Token;
use crate::token::TokenModel;

verus! {

/// The token and next offset that the attacher, simplex and complex retries
/// resolve to once the attacher has failed at offset `fail`: the simplex
/// rescans from one byte before the failure point, never before the line
/// start `t`, and the complex takes whatever is left as the last resort.
pub open spec fn simplex_retry_spec(s: Seq<u8>, t: int, fail: int) -> (TokenModel, int) {
    let search = if fail > t {
        fail - 1
    } else {
        t
    };
    let d = simplex_scan_end(s, search);
    if simplex_hit(s, search) {
        (TokenModel::Simplex(Span { start: t as usize, end: d as usize }), d + 1)
    } else {
        (
            TokenModel::Complex(Span { start: t as usize, end: padding_end(s, d) as usize }),
            padding_end(s, d),
        )
    }
}

/// The token and next offset of the attacher, then simplex, then complex
/// fallback chain on the line content starting at `t`. The attacher succeeds
/// only with non-empty content: where the line or buffer ends right after the
/// separator's padding, the chain falls back like on any other failed line.
pub open spec fn fallback_chain_spec(s: Seq<u8>, t: int) -> (TokenModel, int) {
    let p = separator_end(s, t);
    if separator_hit(s, t) {
        let q = pad_run_end(s, p + 1);
        if q < s.len() && padding_end(s, q) > q {
            (
                TokenModel::Attacher(
                    Span { start: t as usize, end: p as usize },
                    Span { start: q as usize, end: padding_end(s, q) as usize },
                ),
                padding_end(s, q),
            )
        } else {
            simplex_retry_spec(s, t, q)
        }
    } else {
        simplex_retry_spec(s, t, p)
    }
}

/// The token and next offset that the dispatcher resolves to for the line
/// content at `t`, keyed on the byte there: `#` opens a block comment or,
/// failing that, a line comment; `=` opens a block othertongue, a line
/// othertongue or the fallback chain; every other byte goes straight to the
/// fallback chain.
pub open spec fn dispatch_spec(s: Seq<u8>, t: int, tc: int) -> (TokenModel, int) {
    if 0 <= t < s.len() && s[t] == POUND_SIGN {
        if fence3_at(s, t, POUND_SIGN) {
            (
                TokenModel::BlockComment(block_lines_spec(s, t, tc, POUND_SIGN)),
                block_end_spec(s, t, tc, POUND_SIGN),
            )
        } else {
            (
                TokenModel::LineComment(
                    Span { start: (t + 1) as usize, end: line_ending_at(s, t + 1) as usize },
                ),
                line_ending_at(s, t + 1),
            )
        }
    } else if 0 <= t < s.len() && s[t] == EQUAL {
        if fence3_at(s, t, EQUAL) {
            (
                TokenModel::BlockOthertongue(block_lines_spec(s, t, tc, EQUAL)),
                block_end_spec(s, t, tc, EQUAL),
            )
        } else if othertongue_prefix_at(s, t) {
            (
                TokenModel::LineOthertongue(
                    Span { start: (t + 2) as usize, end: line_ending_at(s, t + 2) as usize },
                ),
                line_ending_at(s, t + 2),
            )
        } else {
            fallback_chain_spec(s, t)
        }
    } else {
        fallback_chain_spec(s, t)
    }
}

/// The token and next offset of one dispatcher call. On a fresh line the
/// indentation is recomputed first: a changed depth yields a scope-level token
/// and consumes the indentation only, while an unchanged depth skips the known
/// tabs and dispatches on the content after them.
pub open spec fn any_spec(s: Seq<u8>, offset: int, tab_count: int, is_in_new_line: bool) -> (
    TokenModel,
    int,
) {
    if is_in_new_line {
        let new_tab_count = count_tabs_spec(s.subrange(offset, s.len() as int), tab_count);
        if new_tab_count != tab_count {
            (TokenModel::ScopeLevel(new_tab_count), offset + new_tab_count)
        } else {
            dispatch_spec(s, offset + tab_count, tab_count)
        }
    } else {
        dispatch_spec(s, offset, tab_count)
    }
}

/// Bounds of the fallback chain: it never reports an offset before the line
/// start or past the buffer, and it strictly advances when the line start
/// holds an ordinary byte.
pub proof fn lemma_fallback_chain_bounds(s: Seq<u8>, t: int)
    requires
        0 <= t <= s.len(),
    ensures
        t <= fallback_chain_spec(s, t).1 <= s.len(),
        t < s.len() && s[t] != NEW_LINE && s[t] != TAB ==> t < fallback_chain_spec(s, t).1,
{
    lemma_separator_end(s, t);
    let p = separator_end(s, t);
    if separator_hit(s, t) {
        lemma_pad_run_end(s, p + 1);
        let q = pad_run_end(s, p + 1);
        lemma_padding_end(s, q);
        if !(q < s.len() && padding_end(s, q) > q) {
            lemma_simplex_retry(s, t, q);
        }
    } else {
        lemma_simplex_retry(s, t, p);
    }
}

/// Bounds of the simplex and complex retries after a failed attacher.
proof fn lemma_simplex_retry(s: Seq<u8>, t: int, fail: int)
    requires
        0 <= t <= fail <= s.len(),
    ensures
        t <= simplex_retry_spec(s, t, fail).1 <= s.len(),
        t < s.len() && s[t] != NEW_LINE && s[t] != TAB ==> t < simplex_retry_spec(s, t, fail).1,
{
    let search = if fail > t {
        fail - 1
    } else {
        t
    };
    lemma_simplex_scan_end(s, search);
    let d = simplex_scan_end(s, search);
    lemma_padding_end(s, d);
}

/// Bounds of the dispatcher: the reported offset never precedes the content
/// offset nor leaves the buffer.
pub proof fn lemma_dispatch_bounds(s: Seq<u8>, t: int, tc: int)
    requires
        0 <= t <= s.len() <= usize::MAX,
        0 <= tc,
    ensures
        t <= dispatch_spec(s, t, tc).1 <= s.len(),
{
    if 0 <= t < s.len() && (s[t] == POUND_SIGN || s[t] == EQUAL) {
        let c = s[t];
        if fence3_at(s, t, c) {
            lemma_block_scan(s, opening_end(s, t), tc, c);
        }
        lemma_line_ending_at(s, t + 1);
        lemma_line_ending_at(s, t + 2);
    }
    lemma_fallback_chain_bounds(s, t);
}

/// Totality and progress of the dispatcher: at an in-range offset holding
/// neither a newline nor a tab it resolves, whatever the byte, to a concrete
/// token whose reported offset strictly advances and stays inside the buffer.
pub proof fn lemma_dispatch_progress(s: Seq<u8>, t: int, tc: int)
    requires
        0 <= t < s.len() <= usize::MAX,
        0 <= tc,
        s[t] != NEW_LINE,
        s[t] != TAB,
    ensures
        t < dispatch_spec(s, t, tc).1 <= s.len(),
{
    if s[t] == POUND_SIGN || s[t] == EQUAL {
        let c = s[t];
        if fence3_at(s, t, c) {
            lemma_block_scan(s, opening_end(s, t), tc, c);
        }
        lemma_line_ending_at(s, t + 1);
        lemma_line_ending_at(s, t + 2);
    }
    lemma_fallback_chain_bounds(s, t);
}

/// One dispatcher step from `offset` never moves backwards, never leaves the
/// buffer, and stands still only on the indentation path of a fresh line.
pub proof fn lemma_any_step(s: Seq<u8>, offset: int, tab_count: int, is_in_new_line: bool)
    requires
        0 <= offset < s.len() <= usize::MAX,
        0 <= tab_count,
        s[offset] != NEW_LINE,
        is_in_new_line || s[offset] != TAB,
    ensures
        offset <= any_spec(s, offset, tab_count, is_in_new_line).1 <= s.len(),
        any_spec(s, offset, tab_count, is_in_new_line).1 == offset ==> is_in_new_line,
{
    if is_in_new_line {
        let rest = s.subrange(offset, s.len() as int);
        let new_tab_count = count_tabs_spec(rest, tab_count);
        lemma_count_tabs_le_len(rest, tab_count);
        if new_tab_count != tab_count {
            // A dedent to depth zero consumes no byte and may stand still;
            // only the line-start flag changes, which is what the last
            // ensures clause allows on this path.
        } else {
            if tab_count > 0 {
                lemma_count_tabs_fixpoint(rest, tab_count);
                assert(offset + tab_count < s.len());
                lemma_dispatch_bounds(s, offset + tab_count, tab_count);
            } else {
                lemma_count_tabs_fixpoint(rest, tab_count);
                assert(s[offset] != TAB);
                lemma_dispatch_progress(s, offset, tab_count);
            }
        }
    } else {
        lemma_dispatch_progress(s, offset, tab_count);
    }
}

/// Span consistency of the fallback chain. When it resolves to an attacher,
/// the label span starts at the line's content offset and ends strictly
/// before the never-empty content span begins, so the two never overlap, and
/// the content span ends exactly at the reported next offset: the consumed
/// bytes cover label, separator, padding and content, with nothing counted
/// twice. When it
/// resolves to a simplex, the span starts at the content offset and the
/// reported next offset lies one byte past its end, covering the terminator;
/// when it resolves to a complex, the span runs exactly to the reported next
/// offset.
pub proof fn lemma_chain_spans(s: Seq<u8>, t: int)
    requires
        0 <= t <= s.len() <= usize::MAX,
    ensures
        fallback_chain_spec(s, t).0 matches TokenModel::Attacher(label, content) ==> {
            &&& label.start == t
            &&& label.start <= label.end
            &&& label.end < content.start
            &&& content.start < content.end
            &&& content.end == fallback_chain_spec(s, t).1
            &&& content.end <= s.len()
        },
        fallback_chain_spec(s, t).0 matches TokenModel::Simplex(span) ==> {
            &&& span.start == t
            &&& span.start <= span.end
            &&& span.end + 1 == fallback_chain_spec(s, t).1
            &&& span.end < s.len()
        },
        fallback_chain_spec(s, t).0 matches TokenModel::Complex(span) ==> {
            &&& span.start == t
            &&& span.start <= span.end
            &&& span.end == fallback_chain_spec(s, t).1
            &&& span.end <= s.len()
        },
{
    lemma_separator_end(s, t);
    let p = separator_end(s, t);
    lemma_pad_run_end(s, p + 1);
    let q = pad_run_end(s, p + 1);
    lemma_padding_end(s, q);
    let fail = if separator_hit(s, t) {
        q
    } else {
        p
    };
    let search = if fail > t {
        fail - 1
    } else {
        t
    };
    lemma_simplex_scan_end(s, search);
    lemma_padding_end(s, simplex_scan_end(s, search));
}

/// Resolves the content at `tabbed_offset` through the attacher, simplex and
/// complex retries, in that fixed order. The simplex rescan rewinds to one
/// byte before the attacher's failure point, and the complex rescan keeps the
/// simplex's failure point, while both slice from the line's original start.
fn lex_fallback_chain(src: &[u8], tabbed_offset: usize) -> (r: (Token, usize))
    requires
        tabbed_offset <= src@.len(),
    ensures
        r.0@ == fallback_chain_spec(src@, tabbed_offset as int).0,
        r.1 == fallback_chain_spec(src@, tabbed_offset as int).1,
        r.1 <= src@.len(),
{
    proof {
        lemma_source_len_fits(src);
        lemma_fallback_chain_bounds(src@, tabbed_offset as int);
        lemma_separator_end(src@, tabbed_offset as int);
        lemma_pad_run_end(src@, separator_end(src@, tabbed_offset as int) + 1);
    }
    let (raw_token, last_seen_index) = attacher(src, tabbed_offset, tabbed_offset);
    match raw_token {
        RawToken::Attacher(label, content) => {
            return (Token::Attacher(label, content), last_seen_index);
        },
        _ => {},
    }
    let search_offset = if last_seen_index > tabbed_offset {
        last_seen_index - 1
    } else {
        tabbed_offset
    };
    proof {
        lemma_simplex_scan_end(src@, search_offset as int);
    }
    let (raw_token, last_seen_index) = simplex(src, tabbed_offset, search_offset);
    match raw_token {
        RawToken::Simplex(concept) => {
            return (Token::Simplex(concept), last_seen_index);
        },
        _ => {},
    }
    let (raw_token, last_seen_index) = complex(src, tabbed_offset, last_seen_index);
    match raw_token {
        RawToken::Complex(concept) => (Token::Complex(concept), last_seen_index),
        _ => unreached(),
    }
}

/// Returns the info of the first recognized token and its probably last seen
/// index in the source.
///
/// It needs the source, where to start looking for the token (known as the
/// offset), the number of tabs to work with in case it finds a block token
/// (known as the tab count), and whether the line at the offset has not been
/// checked yet: on a fresh line the indentation is recomputed, and a changed
/// depth yields a scope-level token before any content is read.
pub fn any(src: &[u8], offset: usize, tab_count: usize, is_in_new_line: bool) -> (r: (Token, usize))
    requires
        offset <= src@.len(),
    ensures
        r.0@ == any_spec(src@, offset as int, tab_count as int, is_in_new_line).0,
        r.1 == any_spec(src@, offset as int, tab_count as int, is_in_new_line).1,
        r.1 <= src@.len(),
{
    proof {
        lemma_source_len_fits(src);
    }
    let mut tabbed_offset = offset;
    if is_in_new_line {
        let rest = slice_subrange(src, offset, src.len());
        let new_tab_count = count_tabs(rest, tab_count);
        if new_tab_count != tab_count {
            return (Token::ScopeLevel(new_tab_count), offset + new_tab_count);
        }
        proof {
            if tab_count > 0 {
                lemma_count_tabs_fixpoint(rest@, tab_count as int);
            }
        }
        tabbed_offset = offset + tab_count;
    }
    proof {
        lemma_dispatch_bounds(src@, tabbed_offset as int, tab_count as int);
    }
    if tabbed_offset < src.len() && src[tabbed_offset] == POUND_SIGN {
        let (raw_token, last_seen_index) = block_comment(src, tabbed_offset, tab_count);
        match raw_token {
            RawToken::BlockComment(comment) => {
                return (Token::BlockComment(comment), last_seen_index);
            },
            _ => {},
        }
        let (raw_token, last_seen_index) = line_comment(src, tabbed_offset);
        match raw_token {
            RawToken::LineComment(comment) => (Token::LineComment(comment), last_seen_index),
            _ => unreached(),
        }
    } else if tabbed_offset < src.len() && src[tabbed_offset] == EQUAL {
        let (raw_token, last_seen_index) = block_othertongue(src, tabbed_offset, tab_count);
        match raw_token {
            RawToken::BlockOthertongue(othertongue) => {
                return (Token::BlockOthertongue(othertongue), last_seen_index);
            },
            _ => {},
        }
        let (raw_token, last_seen_index) = line_othertongue(src, tabbed_offset);
        match raw_token {
            RawToken::LineOthertongue(othertongue) => {
                return (Token::LineOthertongue(othertongue), last_seen_index);
            },
            _ => {},
        }
        lex_fallback_chain(src, tabbed_offset)
    } else {
        lex_fallback_chain(src, tabbed_offset)
    }
}

} // verus!
