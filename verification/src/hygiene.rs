//! The expansion-context chain: an explicit parent-pointer tree keyed by
//! integer ids.
//!
//! Context id 0 ([`ROOT_CONTEXT`]) is the top level. Every other id names one
//! expansion step and records the span of the call that triggered it (the
//! expansion-site caller). Ids are handed out in creation order, so a
//! context's caller always carries a strictly smaller context id; walking the
//! chain therefore terminates in at most `id` steps.

use vstd::prelude::*;

use crate::span::{Span, ROOT_CONTEXT};

verus! {

/// One non-root expansion context: the span of the call site that produced it.
#[derive(Clone, Copy, PartialEq, Eq, Structural, Debug)]
pub struct ContextData {
    /// The span at the expansion site, in the context of the caller.
    pub caller: Span,
}

/// The whole context tree, read-only during an analysis run.
///
/// Entry `k` describes context id `k + 1`; the root has no entry.
pub struct ContextTree {
    pub entries: Vec<ContextData>,
}

impl ContextTree {
    /// Every recorded caller span is ordered and points into a strictly
    /// earlier context, which bounds every walk by the chain's depth.
    pub open spec fn wf(self) -> bool {
        forall|k: int| 0 <= k < self.entries@.len() ==> {
            &&& (#[trigger] self.entries@[k]).caller.wf()
            &&& self.entries@[k].caller.ctxt <= k
        }
    }

    /// A context id is valid when it is the root or has an entry.
    pub open spec fn valid_ctxt(self, ctxt: int) -> bool {
        0 <= ctxt <= self.entries@.len()
    }

    pub fn new() -> (t: ContextTree)
        ensures
            t.wf(),
            t.entries@.len() == 0,
    {
        ContextTree { entries: Vec::new() }
    }

    /// Record one more expansion step and return its fresh context id.
    pub fn push(&mut self, caller: Span) -> (ctxt: usize)
        requires
            old(self).wf(),
            caller.wf(),
            old(self).valid_ctxt(caller.ctxt as int),
            old(self).entries@.len() < usize::MAX,
        ensures
            final(self).wf(),
            final(self).entries@ == old(self).entries@.push(ContextData { caller }),
            ctxt == old(self).entries@.len() + 1,
    {
        self.entries.push(ContextData { caller });
        self.entries.len()
    }

    /// The expansion-site caller span of a non-root context.
    pub open spec fn spec_caller(self, ctxt: int) -> Span {
        self.entries@[ctxt - 1].caller
    }

    pub fn caller(&self, ctxt: usize) -> (s: Span)
        requires
            ctxt != ROOT_CONTEXT,
            self.valid_ctxt(ctxt as int),
        ensures
            s == self.spec_caller(ctxt as int),
    {
        self.entries[ctxt - 1].caller
    }

    /// Where a walk from `span` towards context `target` ends: the first span
    /// along the caller chain whose context is `target`, or whose context is
    /// the root if `target` is never met.
    pub open spec fn spec_walk(self, span: Span, target: int) -> Span
        recommends
            self.wf(),
            self.valid_ctxt(span.ctxt as int),
        decreases span.ctxt,
    {
        if span.ctxt == target || span.ctxt == ROOT_CONTEXT {
            span
        } else if self.spec_caller(span.ctxt as int).ctxt < span.ctxt {
            self.spec_walk(self.spec_caller(span.ctxt as int), target)
        } else {
            span
        }
    }

    /// Walk `span` up the chain of expansion-site callers until its context
    /// is `target` or the root.
    pub fn walk_chain(&self, span: Span, target: usize) -> (r: Span)
        requires
            self.wf(),
            span.wf(),
            self.valid_ctxt(span.ctxt as int),
        ensures
            r == self.spec_walk(span, target as int),
            r.wf(),
            self.valid_ctxt(r.ctxt as int),
            r.ctxt == target || r.ctxt == ROOT_CONTEXT,
    {
        let mut cur = span;
        while cur.ctxt != target && cur.ctxt != ROOT_CONTEXT
            invariant
                self.wf(),
                cur.wf(),
                self.valid_ctxt(cur.ctxt as int),
                self.spec_walk(span, target as int) == self.spec_walk(cur, target as int),
            decreases cur.ctxt,
        {
            cur = self.caller(cur.ctxt);
        }
        cur
    }

    /// Walk the span up to the target context, returning the span of the
    /// outermost enclosing expansion call if the span comes from inside an
    /// expansion, or the span itself if it already has the target context.
    ///
    /// Returns `None` when the walk never reaches `target`, which happens
    /// when the span sits in an expansion-argument position whose caller
    /// chain diverges from `target`: such a span must not be treated as
    /// contiguous with code in `target`'s context.
    pub fn walk_span_to_context(&self, span: Span, target: usize) -> (r: Option<Span>)
        requires
            self.wf(),
            span.wf(),
            self.valid_ctxt(span.ctxt as int),
        ensures
            self.spec_walk(span, target as int).ctxt == target
                ==> r == Some(self.spec_walk(span, target as int)),
            self.spec_walk(span, target as int).ctxt != target ==> r is None,
            span.ctxt == target ==> r == Some(span),
            match r {
                Some(walked) => walked.wf() && self.valid_ctxt(walked.ctxt as int)
                    && walked.ctxt == target,
                None => true,
            },
    {
        let walked = self.walk_chain(span, target);
        if walked.ctxt == target {
            Some(walked)
        } else {
            None
        }
    }
}

/// Identity on the root context: walking a root-context span to the root
/// returns the span unchanged.
pub proof fn lemma_walk_root_identity(tree: ContextTree, span: Span)
    requires
        tree.wf(),
        span.ctxt == ROOT_CONTEXT,
    ensures
        tree.spec_walk(span, ROOT_CONTEXT as int) == span,
{
}

} // verus!
