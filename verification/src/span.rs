//! Byte ranges into loaded source buffers, tagged with the expansion context
//! that produced them.

use vstd::prelude::*;

verus! {

/// The context tag of code written directly by the user at the top level.
///
/// Every other context names one expansion step; see [`crate::hygiene`].
pub const ROOT_CONTEXT: usize = 0;

/// A half-open byte range `[lo, hi)` into the global source position space,
/// together with the expansion context that produced the tokens in it.
#[derive(Clone, Copy, PartialEq, Eq, Structural, Debug)]
pub struct Span {
    pub lo: usize,
    pub hi: usize,
    pub ctxt: usize,
}

impl Span {
    /// A span is well formed when its range is not inverted.
    pub open spec fn wf(self) -> bool {
        self.lo <= self.hi
    }

    pub fn new(lo: usize, hi: usize, ctxt: usize) -> (s: Span)
        requires
            lo <= hi,
        ensures
            s == (Span { lo, hi, ctxt }),
            s.wf(),
    {
        Span { lo, hi, ctxt }
    }

    /// The span with its start replaced, keeping end and context.
    pub fn with_lo(self, lo: usize) -> (s: Span)
        requires
            lo <= self.hi,
        ensures
            s == (Span { lo, ..self }),
            s.wf(),
    {
        Span { lo, ..self }
    }

    /// The span with its end replaced, keeping start and context.
    pub fn with_hi(self, hi: usize) -> (s: Span)
        requires
            self.lo <= hi,
        ensures
            s == (Span { hi, ..self }),
            s.wf(),
    {
        Span { hi, ..self }
    }

    /// The empty span sitting at the end of this one.
    pub fn shrink_to_hi(self) -> (s: Span)
        ensures
            s == (Span { lo: self.hi, ..self }),
            s.wf(),
    {
        Span { lo: self.hi, ..self }
    }

    /// The empty span sitting at the start of this one.
    pub fn shrink_to_lo(self) -> (s: Span)
        ensures
            s == (Span { hi: self.lo, ..self }),
            s.wf(),
    {
        Span { hi: self.lo, ..self }
    }

    /// Whether the span covers no bytes at all.
    pub fn is_empty(self) -> (r: bool)
        ensures
            r == (self.lo == self.hi),
    {
        self.lo == self.hi
    }

    /// Whether the span was produced by some expansion step rather than
    /// written at the top level.
    pub fn from_expansion(self) -> (r: bool)
        ensures
            r == (self.ctxt != ROOT_CONTEXT),
    {
        self.ctxt != ROOT_CONTEXT
    }

    /// Whether two spans carry the same context tag, meaning their text may
    /// be treated as contiguous literal source.
    pub fn eq_ctxt(self, other: Span) -> (r: bool)
        ensures
            r == (self.ctxt == other.ctxt),
    {
        self.ctxt == other.ctxt
    }

    /// The span from the start of `self` to the end of `other`.
    pub fn to(self, other: Span) -> (s: Span)
        requires
            self.lo <= other.hi,
        ensures
            s == (Span { lo: self.lo, hi: other.hi, ctxt: self.ctxt }),
            s.wf(),
    {
        Span { lo: self.lo, hi: other.hi, ctxt: self.ctxt }
    }
}

} // verus!
