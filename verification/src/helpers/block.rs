//! The fenced-block scanner shared by block comments and block othertongues.

use vstd::prelude::*;
use vstd::slice::slice_subrange;
use crate::helpers::find_line_ending::find_line_ending;
use crate::helpers::find_line_ending::lemma_line_ending_at;
use crate::helpers::find_line_ending::line_ending_at;
use crate::raw_token::RawToken;
use crate::span::lemma_source_len_fits;
use crate::span::Span;
use crate::special_characters::NEW_LINE;
use crate::special_characters::TAB;

verus! {

/// True when three repetitions of the delimiter byte `c` stand at `offset`,
/// with all three inside the buffer.
pub open spec fn fence3_at(s: Seq<u8>, offset: int, c: u8) -> bool {
    &&& 0 <= offset
    &&& offset + 2 < s.len()
    &&& s[offset] == c
    &&& s[offset + 1] == c
    &&& s[offset + 2] == c
}

/// True when the line is at least `tab_count` columns long and every column
/// below `tab_count` holds a tab.
pub open spec fn leading_tabs(line: Seq<u8>, tab_count: int) -> bool {
    &&& tab_count <= line.len()
    &&& forall|k: int| 0 <= k < tab_count ==> (#[trigger] line[k]) == TAB
}

/// True when the line `[start, end)` closes a fenced block: it consists of
/// exactly `tab_count` leading tabs followed by three delimiter bytes and
/// nothing more before the line ending.
pub open spec fn is_closing_line(s: Seq<u8>, start: int, end: int, tab_count: int, c: u8) -> bool {
    let line = s.subrange(start, end);
    &&& line.len() == tab_count + 3
    &&& leading_tabs(line, tab_count)
    &&& fence3_at(line, tab_count, c)
}

/// The content lines and the final offset of a fenced block whose first
/// content line starts at `p`. The scan stops at the closing fence line,
/// excluded from the content, or permissively at the end of the buffer when no
/// fence closes the block; each content line span covers the whole line,
/// leading tabs included, and its newline is consumed but not covered.
pub open spec fn block_scan(s: Seq<u8>, p: int, tab_count: int, c: u8) -> (Seq<Span>, int)
    decreases s.len() + 1 - p,
        via block_scan_decreases
{
    let e = line_ending_at(s, p);
    if p >= s.len() {
        (Seq::<Span>::empty(), p)
    } else if is_closing_line(s, p, e, tab_count, c) {
        (Seq::<Span>::empty(), if e < s.len() { e + 1 } else { e })
    } else {
        let next = if e < s.len() { e + 1 } else { e };
        let rest = block_scan(s, next, tab_count, c);
        (seq![Span { start: p as usize, end: e as usize }] + rest.0, rest.1)
    }
}

#[via_fn]
proof fn block_scan_decreases(s: Seq<u8>, p: int, tab_count: int, c: u8) {
    if 0 <= p {
        lemma_line_ending_at(s, p);
    }
}

/// Where the content of a fenced block opened at `offset` begins: past the
/// three delimiter bytes and past one directly following newline, if any.
pub open spec fn opening_end(s: Seq<u8>, offset: int) -> int {
    if offset + 3 < s.len() && s[offset + 3] == NEW_LINE {
        offset + 4
    } else {
        offset + 3
    }
}

/// The span collection of the block opened at `offset`: the scanned content
/// lines, or a single zero-width placeholder span at the final offset when the
/// block has no content line, so that the collection is never empty.
pub open spec fn block_lines_spec(s: Seq<u8>, offset: int, tab_count: int, c: u8) -> Seq<Span> {
    let scan = block_scan(s, opening_end(s, offset), tab_count, c);
    if scan.0.len() == 0 {
        seq![Span { start: scan.1 as usize, end: scan.1 as usize }]
    } else {
        scan.0
    }
}

/// The offset just past the block opened at `offset`: past its closing fence
/// line and that line's newline, or the end of the buffer for an unterminated
/// block.
pub open spec fn block_end_spec(s: Seq<u8>, offset: int, tab_count: int, c: u8) -> int {
    block_scan(s, opening_end(s, offset), tab_count, c).1
}

/// A block's span collection is never empty: a block with no content line
/// still carries one zero-width placeholder span, so a downstream consumer
/// can always read at least one span.
pub proof fn lemma_block_lines_never_empty(s: Seq<u8>, offset: int, tab_count: int, c: u8)
    ensures
        block_lines_spec(s, offset, tab_count, c).len() > 0,
{
}

/// Characterization of [`block_scan`]: the scan never moves backwards and
/// stays in the buffer, and the content line spans are in-bounds, ordered and
/// pairwise disjoint, each ending before the next one starts and no later than
/// the final offset.
pub proof fn lemma_block_scan(s: Seq<u8>, p: int, tab_count: int, c: u8)
    requires
        0 <= p <= s.len() <= usize::MAX,
    ensures
        p <= block_scan(s, p, tab_count, c).1 <= s.len(),
        forall|i: int|
            0 <= i < block_scan(s, p, tab_count, c).0.len() ==> p <= (
            #[trigger] block_scan(s, p, tab_count, c).0[i]).start && block_scan(
                s,
                p,
                tab_count,
                c,
            ).0[i].wf(s.len() as int),
        forall|i: int|
            0 <= i < block_scan(s, p, tab_count, c).0.len() ==> (#[trigger] block_scan(
                s,
                p,
                tab_count,
                c,
            ).0[i]).end <= block_scan(s, p, tab_count, c).1,
        forall|i: int, k: int|
            0 <= i < k < block_scan(s, p, tab_count, c).0.len() ==> (#[trigger] block_scan(
                s,
                p,
                tab_count,
                c,
            ).0[i]).end < (#[trigger] block_scan(s, p, tab_count, c).0[k]).start,
    decreases s.len() + 1 - p,
{
    lemma_line_ending_at(s, p);
    let e = line_ending_at(s, p);
    if p >= s.len() {
    } else if is_closing_line(s, p, e, tab_count, c) {
    } else {
        let next = if e < s.len() {
            e + 1
        } else {
            e
        };
        lemma_block_scan(s, next, tab_count, c);
        let rest = block_scan(s, next, tab_count, c);
        let whole = block_scan(s, p, tab_count, c);
        assert(whole.0 == seq![Span { start: p as usize, end: e as usize }] + rest.0);
        assert forall|i: int| 1 <= i < whole.0.len() implies whole.0[i] == rest.0[i - 1] by {}
    }
}

/// Walks the indentation columns of one line and tells whether every column
/// below the tab count holds a tab.
fn holds_leading_tabs(line: &[u8], tab_count: usize) -> (r: bool)
    ensures
        r == leading_tabs(line@, tab_count as int),
{
    if tab_count > line.len() {
        return false;
    }
    let mut j: usize = 0;
    while j < tab_count
        invariant
            0 <= j <= tab_count,
            tab_count <= line@.len(),
            forall|k: int| 0 <= k < j ==> (#[trigger] line@[k]) == TAB,
        decreases tab_count - j,
    {
        if line[j] != TAB {
            proof {
                assert(line@[j as int] != TAB);
            }
            return false;
        }
        j = j + 1;
    }
    true
}

/// Tells whether three repetitions of the given special character stand at the
/// offset in the source, all inside the buffer.
pub fn has_3_special_characters(src: &[u8], offset: usize, special_character: u8) -> (r: bool)
    ensures
        r == fence3_at(src@, offset as int, special_character),
{
    proof {
        lemma_source_len_fits(src);
    }
    if offset < src.len() && src.len() - offset > 2 {
        src[offset] == special_character && src[offset + 1] == special_character && src[offset + 2]
            == special_character
    } else {
        false
    }
}

/// Returns the recognized block and the last seen index.
///
/// This is a generalization of fenced blocks: three repetitions of the given
/// special character open the block, an optional newline follows directly, and
/// every line up to the closing fence line, exactly `tab_count` leading tabs
/// then three delimiter bytes then the line ending, is collected whole as one
/// span. A block that
/// never closes ends permissively at the end of the buffer. The collection is
/// never empty: a block with no content line holds one zero-width span at the
/// final offset. With fewer than three matching bytes at the offset the result
/// is `Empty` at the end of the buffer and `Invalid` elsewhere, with the
/// offset handed back unchanged.
pub fn block(src: &[u8], offset: usize, tab_count: usize, special_character: u8) -> (r: (
    RawToken,
    usize,
))
    ensures
        fence3_at(src@, offset as int, special_character) ==> ({
            &&& r.0 matches RawToken::Block(v) && v@ == block_lines_spec(
                src@,
                offset as int,
                tab_count as int,
                special_character,
            )
            &&& r.1 == block_end_spec(src@, offset as int, tab_count as int, special_character)
            &&& r.1 <= src@.len()
        }),
        !fence3_at(src@, offset as int, special_character) && offset >= src@.len() ==> r == (
            RawToken::Empty,
            offset,
        ),
        !fence3_at(src@, offset as int, special_character) && offset < src@.len() ==> r == (
            RawToken::Invalid,
            offset,
        ),
{
    proof {
        lemma_source_len_fits(src);
    }
    if has_3_special_characters(src, offset, special_character) {
        let ghost s = src@;
        let ghost tc = tab_count as int;
        let mut lines: Vec<Span> = Vec::new();
        let mut pos = offset + 3;
        if pos < src.len() && src[pos] == NEW_LINE {
            pos = pos + 1;
        }
        let ghost q0 = pos as int;
        proof {
            assert(q0 == opening_end(s, offset as int));
            lemma_block_scan(s, q0, tc, special_character);
        }
        #[verifier::loop_isolation(true)]
        loop
            invariant_except_break
                block_scan(src@, q0, tab_count as int, special_character).0 == lines@ + block_scan(
                    src@,
                    pos as int,
                    tab_count as int,
                    special_character,
                ).0,
                block_scan(src@, q0, tab_count as int, special_character).1 == block_scan(
                    src@,
                    pos as int,
                    tab_count as int,
                    special_character,
                ).1,
            invariant
                s == src@,
                tc == tab_count as int,
                src@.len() <= usize::MAX,
                0 <= pos <= src@.len(),
            ensures
                pos <= src@.len(),
                block_scan(src@, q0, tab_count as int, special_character).0 == lines@,
                block_scan(src@, q0, tab_count as int, special_character).1 == pos,
            decreases src@.len() + 1 - pos,
        {
            let start = pos;
            let end = find_line_ending(src, start);
            proof {
                lemma_line_ending_at(s, start as int);
            }
            if start == end && end >= src.len() {
                proof {
                    assert(lines@ + block_scan(s, start as int, tc, special_character).0 =~= lines@);
                }
                break ;
            }
            let line = slice_subrange(src, start, end);
            let closing = if line.len() >= 3 && line.len() - 3 == tab_count {
                holds_leading_tabs(line, tab_count) && has_3_special_characters(
                    line,
                    tab_count,
                    special_character,
                )
            } else {
                false
            };
            if closing {
                pos = end;
                if pos < src.len() && src[pos] == NEW_LINE {
                    pos = pos + 1;
                }
                proof {
                    assert(is_closing_line(s, start as int, end as int, tc, special_character));
                    assert(lines@ + block_scan(s, start as int, tc, special_character).0 =~= lines@);
                    assert(block_scan(s, start as int, tc, special_character).1 == pos);
                }
                break ;
            }
            proof {
                assert(!is_closing_line(s, start as int, end as int, tc, special_character));
                assert((start as int) < s.len());
            }
            let ghost lines_before = lines@;
            lines.push(Span::new(start, end));
            pos = if end < src.len() {
                end + 1
            } else {
                end
            };
            proof {
                let stepped = block_scan(s, start as int, tc, special_character);
                let rest = block_scan(s, pos as int, tc, special_character);
                assert(stepped.0 == seq![Span { start, end }] + rest.0);
                assert(lines@ == lines_before.push(Span { start, end }));
                assert(block_scan(s, q0, tc, special_character).0 =~= lines@ + rest.0);
            }
        }
        if lines.len() == 0 {
            let placeholder = Span::new(pos, pos);
            lines.push(placeholder);
            proof {
                assert(lines@ =~= block_lines_spec(s, offset as int, tc, special_character));
            }
        }
        proof {
            assert(lines@ == block_lines_spec(s, offset as int, tc, special_character));
        }
        (RawToken::Block(lines), pos)
    } else {
        if offset >= src.len() {
            (RawToken::Empty, offset)
        } else {
            (RawToken::Invalid, offset)
        }
    }
}

} // verus!
