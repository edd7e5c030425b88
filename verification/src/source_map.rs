//! Loaded source buffers and exact snippet extraction.
//!
//! A [`SourceMap`] owns a list of non-overlapping buffers laid out in one
//! global byte-position space. A span resolves to a snippet only when its
//! whole range falls inside a single buffer whose text was actually loaded;
//! in every other case extraction answers `None` and callers degrade to a
//! conservative result instead of guessing.

use vstd::prelude::*;

use crate::hygiene::ContextTree;
use crate::scanner::is_whitespace_byte;
use crate::span::{Span, ROOT_CONTEXT};

verus! {

/// How confident a produced suggestion is.
///
/// `MachineApplicable` means safe to apply without review; an expansion
/// involvement downgrades it to `MaybeIncorrect`, and a missing snippet
/// downgrades it to `HasPlaceholders`. `Unspecified` is never changed.
#[derive(Clone, Copy, PartialEq, Eq, Structural, Debug)]
pub enum Applicability {
    MachineApplicable,
    MaybeIncorrect,
    HasPlaceholders,
    Unspecified,
}

/// One loaded file: a half-open range `[start_pos, end_pos)` of the global
/// position space, and its text if the text is available (binary or virtual
/// sources have none).
pub struct SourceBuffer {
    pub start_pos: usize,
    pub end_pos: usize,
    pub src: Option<Vec<u8>>,
}

impl SourceBuffer {
    pub open spec fn wf(self) -> bool {
        &&& self.start_pos <= self.end_pos
        &&& match self.src {
            Some(text) => text@.len() == self.end_pos - self.start_pos,
            None => true,
        }
    }

    /// Whether the whole range `[lo, hi)` falls inside this buffer.
    pub open spec fn contains(self, lo: int, hi: int) -> bool {
        self.start_pos <= lo && hi <= self.end_pos
    }
}

/// All loaded buffers, in ascending position order.
pub struct SourceMap {
    pub files: Vec<SourceBuffer>,
}

impl SourceMap {
    pub open spec fn wf(self) -> bool {
        &&& forall|k: int| 0 <= k < self.files@.len() ==> (#[trigger] self.files@[k]).wf()
        &&& forall|k: int| 0 <= k && k + 1 < self.files@.len()
            ==> (#[trigger] self.files@[k]).end_pos <= self.files@[k + 1].start_pos
    }

    pub fn new() -> (sm: SourceMap)
        ensures
            sm.wf(),
            sm.files@.len() == 0,
    {
        SourceMap { files: Vec::new() }
    }

    /// Load one more buffer after all existing ones and return its index.
    #[verifier::rlimit(50)]
    pub fn push_buffer(&mut self, buf: SourceBuffer) -> (k: usize)
        requires
            old(self).wf(),
            buf.wf(),
            old(self).files@.len() > 0
                ==> old(self).files@.last().end_pos <= buf.start_pos,
        ensures
            final(self).wf(),
            final(self).files@ == old(self).files@.push(buf),
            k == old(self).files@.len(),
    {
        let k = self.files.len();
        self.files.push(buf);
        proof {
            let nf = self.files@;
            let of = old(self).files@;
            assert(nf == of.push(buf));
            assert(nf.len() == of.len() + 1);
            assert forall|j: int| 0 <= j < nf.len() implies (#[trigger] nf[j]).wf() by {
                if j < of.len() {
                    assert(nf[j] == of[j]);
                } else {
                    assert(nf[j] == buf);
                }
            }
            assert forall|j: int| 0 <= j && j + 1 < nf.len()
                implies (#[trigger] nf[j]).end_pos <= nf[j + 1].start_pos by {
                assert(nf[j] == of[j]);
                if j + 1 < of.len() {
                    assert(nf[j + 1] == of[j + 1]);
                } else {
                    assert(nf[j + 1] == buf);
                    assert(of.last() == of[j]);
                }
            }
        }
        k
    }

    /// The first buffer wholly containing `[lo, hi)`, scanning in order.
    pub open spec fn spec_lookup_from(self, lo: int, hi: int, k: int) -> Option<int>
        decreases self.files@.len() - k,
    {
        if k < 0 || k >= self.files@.len() {
            None
        } else if self.files@[k].contains(lo, hi) {
            Some(k)
        } else {
            self.spec_lookup_from(lo, hi, k + 1)
        }
    }

    pub open spec fn spec_lookup(self, lo: int, hi: int) -> Option<int> {
        self.spec_lookup_from(lo, hi, 0)
    }

    pub(crate) fn lookup(&self, lo: usize, hi: usize) -> (r: Option<usize>)
        ensures
            match r {
                Some(k) => {
                    &&& self.spec_lookup(lo as int, hi as int) == Some(k as int)
                    &&& k < self.files@.len()
                    &&& self.files@[k as int].contains(lo as int, hi as int)
                },
                None => self.spec_lookup(lo as int, hi as int) is None,
            },
    {
        let mut k: usize = 0;
        while k < self.files.len()
            invariant
                0 <= k <= self.files@.len(),
                self.spec_lookup(lo as int, hi as int)
                    == self.spec_lookup_from(lo as int, hi as int, k as int),
            decreases self.files@.len() - k,
        {
            let f = &self.files[k];
            if f.start_pos <= lo && hi <= f.end_pos {
                return Some(k);
            }
            k += 1;
        }
        None
    }

    /// The text a span covers: defined exactly when the span falls inside
    /// one buffer whose text is loaded.
    pub open spec fn spec_snippet(self, span: Span) -> Option<Seq<u8>> {
        match self.spec_lookup(span.lo as int, span.hi as int) {
            Some(k) => match self.files@[k].src {
                Some(text) => Some(
                    text@.subrange(
                        span.lo - self.files@[k].start_pos,
                        span.hi - self.files@[k].start_pos,
                    ),
                ),
                None => None,
            },
            None => None,
        }
    }

    /// Extract the exact text of `span`, or `None` when the range does not
    /// resolve into a single loaded buffer.
    pub fn snippet_opt(&self, span: Span) -> (r: Option<Vec<u8>>)
        requires
            self.wf(),
            span.wf(),
        ensures
            match r {
                Some(text) => self.spec_snippet(span) == Some(text@),
                None => self.spec_snippet(span) is None,
            },
    {
        match self.lookup(span.lo, span.hi) {
            Some(k) => {
                let f = &self.files[k];
                match &f.src {
                    Some(text) => Some(crate::copy_range(text.as_slice(), span.lo - f.start_pos, span.hi - f.start_pos)),
                    None => None,
                }
            },
            None => None,
        }
    }

    /// Extract the text of `span`, falling back to `default` when no text
    /// is available.
    pub fn snippet(&self, span: Span, default: &[u8]) -> (r: Vec<u8>)
        requires
            self.wf(),
            span.wf(),
        ensures
            match self.spec_snippet(span) {
                Some(text) => r@ == text,
                None => r@ == default@,
            },
    {
        match self.snippet_opt(span) {
            Some(text) => text,
            None => crate::copy_range(default, 0, default.len()),
        }
    }

    /// Like [`SourceMap::snippet`], but keeps the suggestion confidence
    /// honest: an expansion span downgrades it to `MaybeIncorrect`, and
    /// falling back to the default downgrades `MachineApplicable` to
    /// `HasPlaceholders`. `Unspecified` is never changed.
    pub fn snippet_with_applicability(
        &self,
        span: Span,
        default: &[u8],
        app: &mut Applicability,
    ) -> (r: Vec<u8>)
        requires
            self.wf(),
            span.wf(),
        ensures
            match self.spec_snippet(span) {
                Some(text) => r@ == text,
                None => r@ == default@,
            },
            *final(app) == spec_app_after_snippet(
                *old(app),
                span.ctxt != ROOT_CONTEXT,
                self.spec_snippet(span) is Some,
            ),
    {
        if !matches!(*app, Applicability::Unspecified) && span.from_expansion() {
            *app = Applicability::MaybeIncorrect;
        }
        match self.snippet_opt(span) {
            Some(text) => text,
            None => {
                if matches!(*app, Applicability::MachineApplicable) {
                    *app = Applicability::HasPlaceholders;
                }
                crate::copy_range(default, 0, default.len())
            },
        }
    }

    /// The snippet of the span walked all the way out of every expansion,
    /// i.e. of the outermost call that produced it. Only meaningful when the
    /// span is not an expansion-argument position.
    pub fn snippet_with_macro_callsite(
        &self,
        tree: &ContextTree,
        span: Span,
        default: &[u8],
    ) -> (r: Vec<u8>)
        requires
            self.wf(),
            tree.wf(),
            span.wf(),
            tree.valid_ctxt(span.ctxt as int),
        ensures
            match self.spec_snippet(tree.spec_walk(span, ROOT_CONTEXT as int)) {
                Some(text) => r@ == text,
                None => r@ == default@,
            },
    {
        let callsite = tree.walk_chain(span, ROOT_CONTEXT);
        self.snippet(callsite, default)
    }

    /// Walk `span` up to the context `outer` and take the snippet there;
    /// this yields the call to an expansion rather than its output. Returns
    /// the text and whether it is such an outer call. When the walk fails —
    /// the span is an expansion-argument position — the span's own text is
    /// used and the confidence drops to `MaybeIncorrect`.
    pub fn snippet_with_context(
        &self,
        tree: &ContextTree,
        span: Span,
        outer: usize,
        default: &[u8],
        app: &mut Applicability,
    ) -> (r: (Vec<u8>, bool))
        requires
            self.wf(),
            tree.wf(),
            span.wf(),
            tree.valid_ctxt(span.ctxt as int),
        ensures
            ({
                let walked = tree.spec_walk(span, outer as int);
                if walked.ctxt == outer {
                    ({
                        &&& r.1 == (span.ctxt != outer)
                        &&& (match self.spec_snippet(walked) {
                            Some(text) => r.0@ == text,
                            None => r.0@ == default@,
                        })
                        &&& *final(app) == spec_app_after_snippet(
                            *old(app),
                            walked.ctxt != ROOT_CONTEXT,
                            self.spec_snippet(walked) is Some,
                        )
                    })
                } else {
                    ({
                        &&& r.1 == false
                        &&& (match self.spec_snippet(span) {
                            Some(text) => r.0@ == text,
                            None => r.0@ == default@,
                        })
                        &&& *final(app) == spec_app_after_snippet(
                            spec_app_for_macro_arg(*old(app)),
                            span.ctxt != ROOT_CONTEXT,
                            self.spec_snippet(span) is Some,
                        )
                    })
                }
            }),
    {
        let (target, is_macro_call) = match tree.walk_span_to_context(span, outer) {
            Some(outer_span) => (outer_span, span.ctxt != outer),
            None => {
                if !matches!(*app, Applicability::Unspecified) {
                    *app = Applicability::MaybeIncorrect;
                }
                (span, false)
            },
        };
        let text = self.snippet_with_applicability(target, default, app);
        (text, is_macro_call)
    }

    /// Walk `span` to `ctxt` and return the raw text there, or `None` when
    /// the walk fails or the buffer text is unavailable.
    pub fn get_source_text_at_ctxt(
        &self,
        tree: &ContextTree,
        span: Span,
        ctxt: usize,
    ) -> (r: Option<Vec<u8>>)
        requires
            self.wf(),
            tree.wf(),
            span.wf(),
            tree.valid_ctxt(span.ctxt as int),
        ensures
            ({
                let walked = tree.spec_walk(span, ctxt as int);
                if walked.ctxt == ctxt {
                    match r {
                        Some(text) => self.spec_snippet(walked) == Some(text@),
                        None => self.spec_snippet(walked) is None,
                    }
                } else {
                    r is None
                }
            }),
    {
        match tree.walk_span_to_context(span, ctxt) {
            Some(walked) => self.snippet_opt(walked),
            None => None,
        }
    }

    /// Whether the span stands for text actually present in the source: a
    /// resolvable span with an empty snippet is an artifact inserted during
    /// expansion and must be ignored.
    pub fn is_present_in_source(&self, span: Span) -> (r: bool)
        requires
            self.wf(),
            span.wf(),
        ensures
            r == !(self.spec_snippet(span) == Some(Seq::<u8>::empty())),
    {
        match self.snippet_opt(span) {
            Some(text) => {
                let is_empty = text.len() == 0;
                proof {
                    if is_empty {
                        assert(text@ =~= Seq::<u8>::empty());
                    }
                }
                !is_empty
            },
            None => true,
        }
    }
}

/// The start of the line containing position `p` of `text`: the position
/// right after the previous newline, or the start of the buffer.
pub open spec fn spec_line_start(text: Seq<u8>, p: int) -> int
    decreases p,
{
    if p <= 0 {
        0
    } else if text[p - 1] == 10 {
        p
    } else {
        spec_line_start(text, p - 1)
    }
}

/// The end of the line containing position `p` of `text`: the next newline,
/// or the end of the buffer. The newline is not part of the line.
pub open spec fn spec_line_end(text: Seq<u8>, p: int) -> int
    decreases text.len() - p,
{
    if p < 0 || p >= text.len() || text[p] == 10 {
        p
    } else {
        spec_line_end(text, p + 1)
    }
}

/// The first non-whitespace position in `[j, limit)`, or `limit` if the
/// whole range is whitespace.
pub open spec fn spec_first_nonws(text: Seq<u8>, limit: int, j: int) -> int
    decreases limit - j,
{
    if j < 0 || j >= limit || j >= text.len() || !is_whitespace_byte(text[j]) {
        j
    } else {
        spec_first_nonws(text, limit, j + 1)
    }
}

proof fn lemma_line_start_bounds(text: Seq<u8>, p: int)
    requires
        0 <= p,
    ensures
        0 <= spec_line_start(text, p) <= p,
    decreases p,
{
    if p > 0 && text[p - 1] != 10 {
        lemma_line_start_bounds(text, p - 1);
    }
}

pub proof fn lemma_line_end_bounds(text: Seq<u8>, p: int)
    requires
        0 <= p <= text.len(),
    ensures
        p <= spec_line_end(text, p) <= text.len(),
    decreases text.len() - p,
{
    if !(p >= text.len() || text[p] == 10) {
        lemma_line_end_bounds(text, p + 1);
    }
}

proof fn lemma_first_nonws_bounds(text: Seq<u8>, limit: int, j: int)
    requires
        0 <= j <= limit,
    ensures
        j <= spec_first_nonws(text, limit, j) <= limit,
    decreases limit - j,
{
    if !(j >= limit || j >= text.len() || !is_whitespace_byte(text[j])) {
        lemma_first_nonws_bounds(text, limit, j + 1);
    }
}

impl SourceMap {
    /// The buffer index a position resolves into, provided its text is
    /// loaded.
    pub open spec fn spec_resolve(self, pos: int) -> Option<int> {
        match self.spec_lookup(pos, pos) {
            Some(k) => if self.files@[k].src is Some {
                Some(k)
            } else {
                None
            },
            None => None,
        }
    }

    /// The loaded text of buffer `k`.
    pub open spec fn spec_text(self, k: int) -> Seq<u8> {
        self.files@[k].src->Some_0@
    }

    fn resolve(&self, pos: usize) -> (r: Option<usize>)
        requires
            self.wf(),
        ensures
            match r {
                Some(k) => {
                    &&& self.spec_resolve(pos as int) == Some(k as int)
                    &&& k < self.files@.len()
                    &&& self.files@[k as int].src is Some
                    &&& self.files@[k as int].start_pos <= pos <= self.files@[k as int].end_pos
                },
                None => self.spec_resolve(pos as int) is None,
            },
    {
        match self.lookup(pos, pos) {
            Some(k) => {
                if self.files[k].src.is_some() {
                    Some(k)
                } else {
                    None
                }
            },
            None => None,
        }
    }

    /// The span of the whole line containing the start of `span`, without
    /// its terminating newline, in the span's own context. `None` when the
    /// position does not resolve into loaded text.
    pub fn line_span(&self, span: Span) -> (r: Option<Span>)
        requires
            self.wf(),
            span.wf(),
        ensures
            match self.spec_resolve(span.lo as int) {
                Some(k) => {
                    let start = self.files@[k].start_pos as int;
                    let text = self.spec_text(k);
                    let rel = span.lo - start;
                    r == Some(
                        Span {
                            lo: (start + spec_line_start(text, rel)) as usize,
                            hi: (start + spec_line_end(text, rel)) as usize,
                            ctxt: span.ctxt,
                        },
                    )
                },
                None => r is None,
            },
    {
        match self.resolve(span.lo) {
            Some(k) => {
                let f = &self.files[k];
                let text = f.src.as_ref().unwrap();
                let rel = span.lo - f.start_pos;
                let ls = line_start_of(text.as_slice(), rel);
                let le = line_end_of(text.as_slice(), rel);
                Some(Span { lo: f.start_pos + ls, hi: f.start_pos + le, ctxt: span.ctxt })
            },
            None => None,
        }
    }

    /// The indentation of the line a span starts on: the number of leading
    /// whitespace bytes, or `None` when no text is available or the line
    /// holds nothing but whitespace.
    pub open spec fn spec_indent_of(self, span: Span) -> Option<int> {
        match self.spec_resolve(span.lo as int) {
            Some(k) => {
                let text = self.spec_text(k);
                let rel = span.lo - self.files@[k].start_pos;
                let ls = spec_line_start(text, rel);
                let le = spec_line_end(text, rel);
                let fnw = spec_first_nonws(text, le, ls);
                if fnw < le {
                    Some(fnw - ls)
                } else {
                    None
                }
            },
            None => None,
        }
    }

    /// Measure the indentation of the line a span starts on.
    pub fn indent_of(&self, span: Span) -> (r: Option<usize>)
        requires
            self.wf(),
            span.wf(),
        ensures
            match r {
                Some(c) => self.spec_indent_of(span) == Some(c as int),
                None => self.spec_indent_of(span) is None,
            },
    {
        match self.resolve(span.lo) {
            Some(k) => {
                let f = &self.files[k];
                let text = f.src.as_ref().unwrap();
                let rel = span.lo - f.start_pos;
                let ls = line_start_of(text.as_slice(), rel);
                let le = line_end_of(text.as_slice(), rel);
                let fnw = first_nonws_of(text.as_slice(), le, ls);
                if fnw < le {
                    Some(fnw - ls)
                } else {
                    None
                }
            },
            None => None,
        }
    }

    /// The leading whitespace of the line a span starts on, or the empty
    /// text when the position does not resolve.
    pub open spec fn spec_line_indent(self, span: Span) -> Seq<u8> {
        match self.spec_resolve(span.lo as int) {
            Some(k) => {
                let text = self.spec_text(k);
                let rel = span.lo - self.files@[k].start_pos;
                let ls = spec_line_start(text, rel);
                let le = spec_line_end(text, rel);
                let fnw = spec_first_nonws(text, le, ls);
                text.subrange(ls, fnw)
            },
            None => Seq::empty(),
        }
    }

    /// The leading whitespace of the line a span starts on, as text.
    pub fn snippet_indent(&self, span: Span) -> (r: Option<Vec<u8>>)
        requires
            self.wf(),
            span.wf(),
        ensures
            match r {
                Some(ind) => self.spec_resolve(span.lo as int) is Some && ind@
                    == self.spec_line_indent(span),
                None => self.spec_resolve(span.lo as int) is None,
            },
    {
        match self.resolve(span.lo) {
            Some(k) => {
                let f = &self.files[k];
                let text = f.src.as_ref().unwrap();
                let rel = span.lo - f.start_pos;
                let ls = line_start_of(text.as_slice(), rel);
                let le = line_end_of(text.as_slice(), rel);
                let fnw = first_nonws_of(text.as_slice(), le, ls);
                Some(crate::copy_range(text.as_slice(), ls, fnw))
            },
            None => None,
        }
    }

    /// The span extended backwards to the first non-whitespace byte of its
    /// line. When no text is available, when the line is all whitespace, or
    /// when the move would invert the range, the span is returned unchanged.
    pub fn first_line_of_span(&self, span: Span) -> (r: Span)
        requires
            self.wf(),
            span.wf(),
        ensures
            r.wf(),
            r.ctxt == span.ctxt,
            match self.spec_resolve(span.lo as int) {
                Some(k) => {
                    let text = self.spec_text(k);
                    let start = self.files@[k].start_pos as int;
                    let rel = span.lo - start;
                    let ls = spec_line_start(text, rel);
                    let le = spec_line_end(text, rel);
                    let fnw = spec_first_nonws(text, le, ls);
                    if fnw < le && start + fnw <= span.hi {
                        r == (Span { lo: (start + fnw) as usize, ..span })
                    } else {
                        r == span
                    }
                },
                None => r == span,
            },
    {
        match self.resolve(span.lo) {
            Some(k) => {
                let f = &self.files[k];
                let text = f.src.as_ref().unwrap();
                let rel = span.lo - f.start_pos;
                let ls = line_start_of(text.as_slice(), rel);
                let le = line_end_of(text.as_slice(), rel);
                let fnw = first_nonws_of(text.as_slice(), le, ls);
                if fnw < le && f.start_pos + fnw <= span.hi {
                    span.with_lo(f.start_pos + fnw)
                } else {
                    span
                }
            },
            None => span,
        }
    }

    /// The span extended forwards over every whitespace byte that follows
    /// it; unchanged when the end position does not resolve into loaded
    /// text.
    pub open spec fn spec_with_trailing_ws(self, span: Span) -> Span {
        match self.spec_resolve(span.hi as int) {
            Some(k) => {
                let text = self.spec_text(k);
                let start = self.files@[k].start_pos as int;
                Span {
                    hi: (start + crate::scanner::whitespace_end(text, span.hi - start)) as usize,
                    ..span
                }
            },
            None => span,
        }
    }

    /// Extend the span forwards over every whitespace byte that follows
    /// it, so that deleting the range takes the trailing blank space with
    /// it.
    pub fn with_trailing_whitespace(&self, span: Span) -> (r: Span)
        requires
            self.wf(),
            span.wf(),
        ensures
            r.wf(),
            r == self.spec_with_trailing_ws(span),
    {
        match self.resolve(span.hi) {
            Some(k) => {
                let f = &self.files[k];
                let text = f.src.as_ref().unwrap();
                let rel = span.hi - f.start_pos;
                let we = whitespace_end_of(text.as_slice(), rel);
                span.with_hi(f.start_pos + we)
            },
            None => span,
        }
    }
}

pub(crate) fn line_start_of(text: &[u8], p: usize) -> (r: usize)
    requires
        p <= text@.len(),
    ensures
        r == spec_line_start(text@, p as int),
        0 <= r <= p,
{
    proof {
        lemma_line_start_bounds(text@, p as int);
    }
    let mut l = p;
    while l > 0 && text[l - 1] != 10
        invariant
            0 <= l <= p <= text@.len(),
            spec_line_start(text@, p as int) == spec_line_start(text@, l as int),
        decreases l,
    {
        l -= 1;
    }
    l
}

pub(crate) fn line_end_of(text: &[u8], p: usize) -> (r: usize)
    requires
        p <= text@.len(),
    ensures
        r == spec_line_end(text@, p as int),
        p <= r <= text@.len(),
{
    proof {
        lemma_line_end_bounds(text@, p as int);
    }
    let mut l = p;
    while l < text.len() && text[l] != 10
        invariant
            p <= l <= text@.len(),
            spec_line_end(text@, p as int) == spec_line_end(text@, l as int),
        decreases text@.len() - l,
    {
        l += 1;
    }
    l
}

pub(crate) fn first_nonws_of(text: &[u8], limit: usize, j: usize) -> (r: usize)
    requires
        j <= limit,
        limit <= text@.len(),
    ensures
        r == spec_first_nonws(text@, limit as int, j as int),
        j <= r <= limit,
{
    proof {
        lemma_first_nonws_bounds(text@, limit as int, j as int);
    }
    let mut l = j;
    while l < limit && whitespace_byte_at(text, l)
        invariant
            j <= l <= limit <= text@.len(),
            spec_first_nonws(text@, limit as int, j as int)
                == spec_first_nonws(text@, limit as int, l as int),
        decreases limit - l,
    {
        l += 1;
    }
    l
}

pub(crate) fn whitespace_end_of(text: &[u8], j: usize) -> (r: usize)
    requires
        j <= text@.len(),
    ensures
        r == crate::scanner::whitespace_end(text@, j as int),
        j <= r <= text@.len(),
{
    let mut l = j;
    while l < text.len() && whitespace_byte_at(text, l)
        invariant
            j <= l <= text@.len(),
            crate::scanner::whitespace_end(text@, j as int)
                == crate::scanner::whitespace_end(text@, l as int),
        decreases text@.len() - l,
    {
        l += 1;
    }
    l
}

pub(crate) fn whitespace_byte_at(text: &[u8], l: usize) -> (r: bool)
    requires
        l < text@.len(),
    ensures
        r == is_whitespace_byte(text@[l as int]),
{
    let b = text[l];
    b == 32 || b == 9 || b == 10 || b == 13 || b == 11 || b == 12
}

/// The confidence after one snippet extraction, given whether the span came
/// from an expansion and whether its text was found.
pub open spec fn spec_app_after_snippet(
    app: Applicability,
    from_expansion: bool,
    found: bool,
) -> Applicability {
    let stepped = if app != Applicability::Unspecified && from_expansion {
        Applicability::MaybeIncorrect
    } else {
        app
    };
    if !found && stepped == Applicability::MachineApplicable {
        Applicability::HasPlaceholders
    } else {
        stepped
    }
}

/// The confidence after discovering that a span is an expansion-argument
/// position whose chain diverges from the wanted context.
pub open spec fn spec_app_for_macro_arg(app: Applicability) -> Applicability {
    if app != Applicability::Unspecified {
        Applicability::MaybeIncorrect
    } else {
        app
    }
}

/// A reconstructed snippet has exactly as many bytes as its span.
pub proof fn lemma_snippet_len(sm: SourceMap, span: Span)
    requires
        sm.wf(),
        span.wf(),
    ensures
        match sm.spec_snippet(span) {
            Some(text) => text.len() == span.hi - span.lo,
            None => true,
        },
{
    match sm.spec_lookup(span.lo as int, span.hi as int) {
        Some(k) => {
            lemma_lookup_in_range(sm, span.lo as int, span.hi as int, 0);
        },
        None => {},
    }
}

/// A zero-length span never reconstructs any text but the empty string,
/// whatever buffer it resolves into.
pub proof fn lemma_empty_span_empty_snippet(sm: SourceMap, span: Span)
    requires
        sm.wf(),
        span.wf(),
        span.lo == span.hi,
    ensures
        match sm.spec_snippet(span) {
            Some(text) => text == Seq::<u8>::empty(),
            None => true,
        },
{
    match sm.spec_lookup(span.lo as int, span.hi as int) {
        Some(k) => {
            lemma_lookup_in_range(sm, span.lo as int, span.hi as int, 0);
            match sm.files@[k].src {
                Some(text) => {
                    assert(text@.subrange(
                        span.lo - sm.files@[k].start_pos,
                        span.hi - sm.files@[k].start_pos,
                    ) =~= Seq::<u8>::empty());
                },
                None => {},
            }
        },
        None => {},
    }
}

proof fn lemma_lookup_in_range(sm: SourceMap, lo: int, hi: int, k: int)
    requires
        0 <= k,
    ensures
        match sm.spec_lookup_from(lo, hi, k) {
            Some(j) => k <= j < sm.files@.len() && sm.files@[j].contains(lo, hi),
            None => true,
        },
    decreases sm.files@.len() - k,
{
    if k < sm.files@.len() && !sm.files@[k].contains(lo, hi) {
        lemma_lookup_in_range(sm, lo, hi, k + 1);
    }
}

} // verus!
