//! Byte ranges into the source buffer.

use vstd::prelude::*;

verus! {

/// A half-open `[start, end)` byte range into a source buffer, also called a
/// boundary. A span never owns bytes; the caller resolves it to content.
#[derive(Clone, Copy, Debug, PartialEq, Eq, Structural)]
pub struct Span {
    pub start: usize,
    pub end: usize,
}

/// A byte buffer's length fits in `usize`, so every in-bounds offset does too.
pub proof fn lemma_source_len_fits(src: &[u8])
    ensures
        src@.len() <= usize::MAX,
{
    assert(src@.len() == vstd::slice::spec_slice_len(src));
}

impl Span {
    /// Well-formedness inside a buffer of length `n`: the range is ordered and in bounds.
    pub open spec fn wf(self, n: int) -> bool {
        self.start <= self.end <= n
    }

    pub fn new(start: usize, end: usize) -> (r: Span)
        requires
            start <= end,
        ensures
            r == (Span { start, end }),
    {
        Span { start, end }
    }
}

} // verus!
