//! Indentation counter with hysteresis.

use vstd::prelude::*;
use crate::special_characters::TAB;

verus! {

/// The least index at or after `offset` that does not hold a tab: the end of
/// the tab run that the forward walk of [`count_tabs`] reaches.
pub open spec fn tab_run_end(s: Seq<u8>, offset: int) -> int
    decreases s.len() - offset,
{
    if !(0 <= offset < s.len()) {
        offset
    } else if s[offset] == TAB {
        tab_run_end(s, offset + 1)
    } else {
        offset
    }
}

/// The greatest index at or below `offset` that is zero or directly preceded
/// by a tab: where the backward walk of [`count_tabs`] stops.
pub open spec fn back_stop(s: Seq<u8>, offset: int) -> int
    decreases offset,
{
    if offset <= 0 {
        0
    } else if 0 <= offset - 1 < s.len() && s[offset - 1] == TAB {
        offset
    } else {
        back_stop(s, offset - 1)
    }
}

/// The indentation depth that [`count_tabs`] reports for a line starting at
/// index 0 of `s`, given the previous line's depth as a hint. Walking forward
/// from the hint handles increasing indent; walking backward handles
/// decreasing indent; a line that ends exactly at the hint resets to depth 0,
/// so a whitespace-only line never establishes new scope.
pub open spec fn count_tabs_spec(s: Seq<u8>, old_tab_count: int) -> int {
    let peak = tab_run_end(s, old_tab_count);
    if peak >= s.len() {
        if peak == old_tab_count {
            0
        } else {
            peak
        }
    } else {
        back_stop(s, peak)
    }
}

/// Characterization of [`tab_run_end`].
pub proof fn lemma_tab_run_end(s: Seq<u8>, offset: int)
    requires
        0 <= offset,
    ensures
        offset <= tab_run_end(s, offset),
        offset <= s.len() ==> tab_run_end(s, offset) <= s.len(),
        forall|j: int| offset <= j < tab_run_end(s, offset) ==> s[j] == TAB,
        tab_run_end(s, offset) < s.len() ==> s[tab_run_end(s, offset)] != TAB,
        tab_run_end(s, offset) > offset ==> tab_run_end(s, offset) <= s.len(),
    decreases s.len() - offset,
{
    if 0 <= offset < s.len() && s[offset] == TAB {
        lemma_tab_run_end(s, offset + 1);
    }
}

/// Characterization of [`back_stop`].
pub proof fn lemma_back_stop(s: Seq<u8>, offset: int)
    requires
        0 <= offset,
    ensures
        0 <= back_stop(s, offset) <= offset,
        back_stop(s, offset) == 0 || (0 <= back_stop(s, offset) - 1 < s.len() && s[back_stop(
            s,
            offset,
        ) - 1] == TAB),
        forall|j: int|
            back_stop(s, offset) <= j < offset ==> !(0 <= j < s.len() && s[j] == TAB),
    decreases offset,
{
    if offset > 0 && !(0 <= offset - 1 < s.len() && s[offset - 1] == TAB) {
        lemma_back_stop(s, offset - 1);
    }
}

/// The reported depth never exceeds the line's length.
pub proof fn lemma_count_tabs_le_len(s: Seq<u8>, old_tab_count: int)
    requires
        0 <= old_tab_count,
    ensures
        0 <= count_tabs_spec(s, old_tab_count) <= s.len(),
{
    lemma_tab_run_end(s, old_tab_count);
    lemma_back_stop(s, tab_run_end(s, old_tab_count));
}

/// When the depth comes out unchanged on a non-empty line, the byte right
/// after the indentation is not a tab, and it lies inside the buffer.
pub proof fn lemma_count_tabs_fixpoint(s: Seq<u8>, old_tab_count: int)
    requires
        0 <= old_tab_count,
        count_tabs_spec(s, old_tab_count) == old_tab_count,
        old_tab_count > 0 || s.len() > 0,
    ensures
        old_tab_count < s.len(),
        s[old_tab_count] != TAB,
{
    let peak = tab_run_end(s, old_tab_count);
    lemma_tab_run_end(s, old_tab_count);
    lemma_back_stop(s, peak);
    if peak >= s.len() {
        // The depth would have been reset to 0 or climbed past the hint.
        assert(old_tab_count == 0 && s.len() == 0);
    } else {
        if peak > old_tab_count {
            // The climb moved, so the byte before the peak is a tab and the
            // backward walk stops at the peak itself, above the hint.
            assert(s[peak - 1] == TAB);
            assert(back_stop(s, peak) == peak);
        }
    }
}

/// Returns the number of initial tabs in the source.
///
/// It needs an array of bytes as the first argument (known as source), and the
/// previous number of tabs worked on (known as old tab count). On the first
/// line, pass 0 as the old tab count.
pub fn count_tabs(src: &[u8], old_tab_count: usize) -> (r: usize)
    ensures
        r == count_tabs_spec(src@, old_tab_count as int),
        r <= src@.len(),
{
    proof {
        lemma_count_tabs_le_len(src@, old_tab_count as int);
    }
    let mut new_tab_count = old_tab_count;
    while new_tab_count < src.len() && src[new_tab_count] == TAB
        invariant
            old_tab_count <= new_tab_count,
            tab_run_end(src@, old_tab_count as int) == tab_run_end(src@, new_tab_count as int),
        decreases src@.len() - new_tab_count,
    {
        new_tab_count = new_tab_count + 1;
    }
    if new_tab_count >= src.len() {
        if old_tab_count == new_tab_count {
            0
        } else {
            new_tab_count
        }
    } else {
        let ghost peak = new_tab_count as int;
        while new_tab_count > 0 && src[new_tab_count - 1] != TAB
            invariant
                0 <= new_tab_count <= peak,
                peak < src@.len(),
                back_stop(src@, peak) == back_stop(src@, new_tab_count as int),
            decreases new_tab_count,
        {
            new_tab_count = new_tab_count - 1;
        }
        new_tab_count
    }
}

} // verus!
