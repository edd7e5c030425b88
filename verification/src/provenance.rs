//! Deciding whether a syntax node was written literally by a user.
//!
//! A code-generation facility can attribute the tokens it outputs to spans
//! that look user-written. The heuristic here derives, purely from a node's
//! shape, a small piece of text that must stand at the start and at the end
//! of the node's source range if the node was typed out — and tests the
//! range's actual text against the pair. Expansions routinely wrap their
//! output in parentheses, whitespace and trailing commas, so those are
//! trimmed before the test. A failed test, a missing buffer or an empty
//! range all count as "possibly generated": a false "generated" only mutes
//! a diagnostic, while a false "written" could produce a textually wrong
//! suggestion.

use vstd::prelude::*;

use crate::ast::{Expr, ExprKind, IntSuffix, LitKind, LoopSource, MatchSource, QPath, StrStyle,
    UnOp, YieldSource};
use crate::scanner::is_whitespace_byte;
use crate::source_map::SourceMap;
use crate::span::Span;

verus! {

/// An expected piece of literal text: exact bytes, or any decimal digit.
pub enum Pat {
    Text(Vec<u8>),
    Num,
}

/// The mathematical shape of a [`Pat`].
pub enum SpecPat {
    Text(Seq<u8>),
    Num,
}

impl View for Pat {
    type V = SpecPat;

    open spec fn view(&self) -> SpecPat {
        match self {
            Pat::Text(t) => SpecPat::Text(t@),
            Pat::Num => SpecPat::Num,
        }
    }
}

pub open spec fn is_ascii_digit(b: u8) -> bool {
    48 <= b <= 57
}

pub open spec fn is_ascii_hexdigit(b: u8) -> bool {
    is_ascii_digit(b) || (97 <= b <= 102) || (65 <= b <= 70)
}

/// The first position at or after `j` holding neither whitespace nor `(`.
pub open spec fn spec_trim_open(s: Seq<u8>, j: int) -> int
    decreases s.len() - j,
{
    if j < 0 || j >= s.len() || !(is_whitespace_byte(s[j]) || s[j] == 40) {
        j
    } else {
        spec_trim_open(s, j + 1)
    }
}

/// The position at or before `j` with no whitespace, `)` or `,` before it.
pub open spec fn spec_trim_close(s: Seq<u8>, j: int) -> int
    decreases j,
{
    if j <= 0 || j > s.len() || !(is_whitespace_byte(s[j - 1]) || s[j - 1] == 41 || s[j - 1]
        == 44) {
        j
    } else {
        spec_trim_close(s, j - 1)
    }
}

/// Whether `s`, read from `from`, starts with the pattern.
pub open spec fn spec_starts_with(s: Seq<u8>, from: int, p: SpecPat) -> bool {
    match p {
        SpecPat::Text(t) => 0 <= from && from + t.len() <= s.len() && s.subrange(
            from,
            from + t.len(),
        ) == t,
        SpecPat::Num => 0 <= from < s.len() && is_ascii_digit(s[from]),
    }
}

/// Whether `s`, cut off at `to`, ends with the pattern. A digit pattern at
/// the end accepts any hexadecimal digit, so that suffixed and based
/// literals still pass.
pub open spec fn spec_ends_with(s: Seq<u8>, to: int, p: SpecPat) -> bool {
    match p {
        SpecPat::Text(t) => t.len() <= to <= s.len() && s.subrange(to - t.len(), to) == t,
        SpecPat::Num => 0 < to <= s.len() && is_ascii_hexdigit(s[to - 1]),
    }
}

/// Whether the span's text, with leading whitespace and `(` trimmed from
/// the start and whitespace, `)` and `,` trimmed from the end, begins with
/// `sp` and finishes with `ep`. A span without resolvable text never
/// matches, and neither does a zero-length span: nothing was written
/// there.
pub open spec fn spec_span_matches_pat(sm: SourceMap, span: Span, sp: SpecPat, ep: SpecPat) -> bool {
    &&& span.lo < span.hi
    &&& match sm.spec_snippet(span) {
        Some(text) => spec_starts_with(text, spec_trim_open(text, 0), sp) && spec_ends_with(
            text,
            spec_trim_close(text, text.len() as int),
            ep,
        ),
        None => false,
    }
}

proof fn lemma_trim_open_bounds(s: Seq<u8>, j: int)
    requires
        0 <= j <= s.len(),
    ensures
        j <= spec_trim_open(s, j) <= s.len(),
    decreases s.len() - j,
{
    if !(j >= s.len() || !(is_whitespace_byte(s[j]) || s[j] == 40)) {
        lemma_trim_open_bounds(s, j + 1);
    }
}

proof fn lemma_trim_close_bounds(s: Seq<u8>, j: int)
    requires
        0 <= j <= s.len(),
    ensures
        0 <= spec_trim_close(s, j) <= j,
    decreases j,
{
    if !(j <= 0 || !(is_whitespace_byte(s[j - 1]) || s[j - 1] == 41 || s[j - 1] == 44)) {
        lemma_trim_close_bounds(s, j - 1);
    }
}

fn open_trim_byte(b: u8) -> (r: bool)
    ensures
        r == (is_whitespace_byte(b) || b == 40),
{
    b == 32 || b == 9 || b == 10 || b == 13 || b == 11 || b == 12 || b == 40
}

fn close_trim_byte(b: u8) -> (r: bool)
    ensures
        r == (is_whitespace_byte(b) || b == 41 || b == 44),
{
    b == 32 || b == 9 || b == 10 || b == 13 || b == 11 || b == 12 || b == 41 || b == 44
}

fn trim_open_of(text: &Vec<u8>) -> (r: usize)
    ensures
        r == spec_trim_open(text@, 0),
        r <= text@.len(),
{
    proof {
        lemma_trim_open_bounds(text@, 0);
    }
    let mut j: usize = 0;
    while j < text.len() && open_trim_byte(text[j])
        invariant
            0 <= j <= text@.len(),
            spec_trim_open(text@, 0) == spec_trim_open(text@, j as int),
        decreases text@.len() - j,
    {
        j += 1;
    }
    j
}

fn trim_close_of(text: &Vec<u8>) -> (r: usize)
    ensures
        r == spec_trim_close(text@, text@.len() as int),
        r <= text@.len(),
{
    proof {
        lemma_trim_close_bounds(text@, text@.len() as int);
    }
    let mut j: usize = text.len();
    while j > 0 && close_trim_byte(text[j - 1])
        invariant
            0 <= j <= text@.len(),
            spec_trim_close(text@, text@.len() as int) == spec_trim_close(text@, j as int),
        decreases j,
    {
        j -= 1;
    }
    j
}

fn digit_byte(b: u8) -> (r: bool)
    ensures
        r == is_ascii_digit(b),
{
    48 <= b && b <= 57
}

fn hexdigit_byte(b: u8) -> (r: bool)
    ensures
        r == is_ascii_hexdigit(b),
{
    (48 <= b && b <= 57) || (97 <= b && b <= 102) || (65 <= b && b <= 70)
}

/// Test the start and the end of the span's text against the two patterns.
pub fn span_matches_pat(sm: &SourceMap, span: Span, start_pat: &Pat, end_pat: &Pat) -> (r: bool)
    requires
        sm.wf(),
        span.wf(),
    ensures
        r == spec_span_matches_pat(*sm, span, start_pat@, end_pat@),
{
    if span.lo == span.hi {
        return false;
    }
    match sm.snippet_opt(span) {
        Some(text) => {
            let ts = trim_open_of(&text);
            let te = trim_close_of(&text);
            let starts = match start_pat {
                Pat::Text(t) => crate::bytes_at(text.as_slice(), ts, t.as_slice()),
                Pat::Num => ts < text.len() && digit_byte(text[ts]),
            };
            let ends = match end_pat {
                Pat::Text(t) => te >= t.len() && crate::bytes_at(
                    text.as_slice(),
                    te - t.len(),
                    t.as_slice(),
                ),
                Pat::Num => te > 0 && hexdigit_byte(text[te - 1]),
            };
            starts && ends
        },
        None => false,
    }
}

/// The start and end patterns a literal of the given kind must show.
pub open spec fn spec_lit_search_pat(lit: LitKind) -> (SpecPat, SpecPat) {
    match lit {
        LitKind::Str { style: StrStyle::Cooked } => (
            SpecPat::Text(seq![34u8]),
            SpecPat::Text(seq![34u8]),
        ),
        LitKind::Str { style: StrStyle::Raw { hashes } } => if hashes == 0 {
            (SpecPat::Text(seq![114u8]), SpecPat::Text(seq![34u8]))
        } else {
            (SpecPat::Text(seq![114u8, 35u8]), SpecPat::Text(seq![35u8]))
        },
        LitKind::ByteStr => (SpecPat::Text(seq![98u8, 34u8]), SpecPat::Text(seq![34u8])),
        LitKind::Byte => (SpecPat::Text(seq![98u8, 39u8]), SpecPat::Text(seq![39u8])),
        LitKind::Char => (SpecPat::Text(seq![39u8]), SpecPat::Text(seq![39u8])),
        LitKind::Int { suffix: IntSuffix::Isize } => (
            SpecPat::Num,
            SpecPat::Text(seq![105u8, 115u8, 105u8, 122u8, 101u8]),
        ),
        LitKind::Int { suffix: IntSuffix::Usize } => (
            SpecPat::Num,
            SpecPat::Text(seq![117u8, 115u8, 105u8, 122u8, 101u8]),
        ),
        LitKind::Int { suffix: IntSuffix::OtherOrNone } => (SpecPat::Num, SpecPat::Num),
        LitKind::Float => (SpecPat::Num, SpecPat::Text(Seq::empty())),
        LitKind::Bool { value: true } => (
            SpecPat::Text(seq![116u8, 114u8, 117u8, 101u8]),
            SpecPat::Text(seq![116u8, 114u8, 117u8, 101u8]),
        ),
        LitKind::Bool { value: false } => (
            SpecPat::Text(seq![102u8, 97u8, 108u8, 115u8, 101u8]),
            SpecPat::Text(seq![102u8, 97u8, 108u8, 115u8, 101u8]),
        ),
        LitKind::OtherLit => (SpecPat::Text(Seq::empty()), SpecPat::Text(Seq::empty())),
    }
}

/// The patterns for a path: its first and last written segment, or the
/// angle brackets of an explicit qualification or argument list.
pub open spec fn spec_qpath_search_pat(p: QPath) -> (SpecPat, SpecPat) {
    match p {
        QPath::Resolved { has_self_ty, segments } => {
            let start = if has_self_ty {
                SpecPat::Text(seq![60u8])
            } else if segments@.len() > 0 {
                SpecPat::Text(segments@[0].name@)
            } else {
                SpecPat::Text(Seq::empty())
            };
            let end = if segments@.len() > 0 {
                if segments@.last().has_args {
                    SpecPat::Text(seq![62u8])
                } else {
                    SpecPat::Text(segments@.last().name@)
                }
            } else {
                SpecPat::Text(Seq::empty())
            };
            (start, end)
        },
        QPath::TypeRelative { name } => (SpecPat::Text(Seq::empty()), SpecPat::Text(name@)),
        QPath::LangItem => (SpecPat::Text(Seq::empty()), SpecPat::Text(Seq::empty())),
    }
}

/// The patterns a node of the given shape must show at its start and end
/// if it was written out literally.
pub open spec fn spec_expr_search_pat(e: Expr) -> (SpecPat, SpecPat)
    decreases e,
{
    match e.kind {
        ExprKind::Boxed(inner) => (
            SpecPat::Text(seq![98u8, 111u8, 120u8]),
            spec_expr_search_pat(*inner).1,
        ),
        ExprKind::ConstBlock => (
            SpecPat::Text(seq![99u8, 111u8, 110u8, 115u8, 116u8]),
            SpecPat::Text(seq![125u8]),
        ),
        ExprKind::Unary(UnOp::Deref, inner) => (
            SpecPat::Text(seq![42u8]),
            spec_expr_search_pat(*inner).1,
        ),
        ExprKind::Unary(UnOp::Not, inner) => (
            SpecPat::Text(seq![33u8]),
            spec_expr_search_pat(*inner).1,
        ),
        ExprKind::Unary(UnOp::Neg, inner) => (
            SpecPat::Text(seq![45u8]),
            spec_expr_search_pat(*inner).1,
        ),
        ExprKind::Lit(lit) => spec_lit_search_pat(lit),
        ExprKind::Array(_) => (SpecPat::Text(seq![91u8]), SpecPat::Text(seq![93u8])),
        ExprKind::Repeat(_) => (SpecPat::Text(seq![91u8]), SpecPat::Text(seq![93u8])),
        ExprKind::Call(callee, args) => if args@.len() == 0 {
            (spec_expr_search_pat(*callee).0, SpecPat::Text(seq![40u8]))
        } else {
            (spec_expr_search_pat(*callee).0, spec_expr_search_pat(args@.last()).1)
        },
        ExprKind::MethodCall(args) => if args@.len() == 0 {
            (SpecPat::Text(Seq::empty()), SpecPat::Text(Seq::empty()))
        } else if args@.len() == 1 {
            (spec_expr_search_pat(args@[0]).0, SpecPat::Text(seq![40u8]))
        } else {
            (spec_expr_search_pat(args@[0]).0, spec_expr_search_pat(args@.last()).1)
        },
        ExprKind::Binary(_, l, r) => (spec_expr_search_pat(*l).0, spec_expr_search_pat(*r).1),
        ExprKind::Tup(items) => if items@.len() == 0 {
            (SpecPat::Text(seq![41u8]), SpecPat::Text(seq![40u8]))
        } else if items@.len() == 1 {
            spec_expr_search_pat(items@[0])
        } else {
            (spec_expr_search_pat(items@[0]).0, spec_expr_search_pat(items@.last()).1)
        },
        ExprKind::Assign(l, r, _) => (spec_expr_search_pat(*l).0, spec_expr_search_pat(*r).1),
        ExprKind::AssignOp(_, l, r) => (spec_expr_search_pat(*l).0, spec_expr_search_pat(*r).1),
        ExprKind::DropTemps(inner) => spec_expr_search_pat(*inner),
        ExprKind::Cast(inner) => (spec_expr_search_pat(*inner).0, SpecPat::Text(Seq::empty())),
        ExprKind::TypeAscription(inner) => (
            spec_expr_search_pat(*inner).0,
            SpecPat::Text(Seq::empty()),
        ),
        ExprKind::Let(init) => (
            SpecPat::Text(seq![108u8, 101u8, 116u8]),
            spec_expr_search_pat(*init).1,
        ),
        ExprKind::If(_, _, _) => (
            SpecPat::Text(seq![105u8, 102u8]),
            SpecPat::Text(seq![125u8]),
        ),
        ExprKind::Loop { body: _, label, source } => if label is Some {
            (SpecPat::Text(seq![39u8]), SpecPat::Text(seq![125u8]))
        } else {
            match source {
                LoopSource::Loop => (
                    SpecPat::Text(seq![108u8, 111u8, 111u8, 112u8]),
                    SpecPat::Text(seq![125u8]),
                ),
                LoopSource::While => (
                    SpecPat::Text(seq![119u8, 104u8, 105u8, 108u8, 101u8]),
                    SpecPat::Text(seq![125u8]),
                ),
                LoopSource::ForLoop => (
                    SpecPat::Text(seq![102u8, 111u8, 114u8]),
                    SpecPat::Text(seq![125u8]),
                ),
            }
        },
        ExprKind::Match { scrutinee, arms: _, source } => match source {
            MatchSource::Normal => (
                SpecPat::Text(seq![109u8, 97u8, 116u8, 99u8, 104u8]),
                SpecPat::Text(seq![125u8]),
            ),
            MatchSource::ForLoopDesugar => (
                SpecPat::Text(seq![102u8, 111u8, 114u8]),
                SpecPat::Text(seq![125u8]),
            ),
            MatchSource::TryDesugar => (
                spec_expr_search_pat(*scrutinee).0,
                SpecPat::Text(seq![63u8]),
            ),
            MatchSource::AwaitDesugar => (
                spec_expr_search_pat(*scrutinee).0,
                SpecPat::Text(seq![97u8, 119u8, 97u8, 105u8, 116u8]),
            ),
        },
        ExprKind::Closure { body } => (
            SpecPat::Text(Seq::empty()),
            spec_expr_search_pat(*body).1,
        ),
        ExprKind::BlockExpr { block, label } => if label is Some {
            (SpecPat::Text(seq![39u8]), SpecPat::Text(seq![125u8]))
        } else if block.is_unsafe {
            (
                SpecPat::Text(seq![117u8, 110u8, 115u8, 97u8, 102u8, 101u8]),
                SpecPat::Text(seq![125u8]),
            )
        } else {
            (SpecPat::Text(seq![123u8]), SpecPat::Text(seq![125u8]))
        },
        ExprKind::Field(base, name) => (spec_expr_search_pat(*base).0, SpecPat::Text(name@)),
        ExprKind::Index(base, _) => (spec_expr_search_pat(*base).0, SpecPat::Text(seq![93u8])),
        ExprKind::Path(qpath) => spec_qpath_search_pat(qpath),
        ExprKind::AddrOf(inner) => (SpecPat::Text(seq![38u8]), spec_expr_search_pat(*inner).1),
        ExprKind::Break { label, value } => match value {
            Some(inner) => (
                SpecPat::Text(seq![98u8, 114u8, 101u8, 97u8, 107u8]),
                spec_expr_search_pat(*inner).1,
            ),
            None => match label {
                Some(name) => (
                    SpecPat::Text(seq![98u8, 114u8, 101u8, 97u8, 107u8]),
                    SpecPat::Text(name@),
                ),
                None => (
                    SpecPat::Text(seq![98u8, 114u8, 101u8, 97u8, 107u8]),
                    SpecPat::Text(seq![98u8, 114u8, 101u8, 97u8, 107u8]),
                ),
            },
        },
        ExprKind::Continue { label } => match label {
            Some(name) => (
                SpecPat::Text(seq![99u8, 111u8, 110u8, 116u8, 105u8, 110u8, 117u8, 101u8]),
                SpecPat::Text(name@),
            ),
            None => (
                SpecPat::Text(seq![99u8, 111u8, 110u8, 116u8, 105u8, 110u8, 117u8, 101u8]),
                SpecPat::Text(seq![99u8, 111u8, 110u8, 116u8, 105u8, 110u8, 117u8, 101u8]),
            ),
        },
        ExprKind::Ret(value) => match value {
            None => (
                SpecPat::Text(seq![114u8, 101u8, 116u8, 117u8, 114u8, 110u8]),
                SpecPat::Text(seq![114u8, 101u8, 116u8, 117u8, 114u8, 110u8]),
            ),
            Some(_) => (SpecPat::Text(Seq::empty()), SpecPat::Text(Seq::empty())),
        },
        ExprKind::Struct(qpath) => (spec_qpath_search_pat(qpath).0, SpecPat::Text(seq![125u8])),
        ExprKind::Yield(inner, YieldSource::Yield) => (
            SpecPat::Text(seq![121u8, 105u8, 101u8, 108u8, 100u8]),
            spec_expr_search_pat(*inner).1,
        ),
        ExprKind::Yield(inner, YieldSource::Await) => (
            spec_expr_search_pat(*inner).0,
            SpecPat::Text(seq![97u8, 119u8, 97u8, 105u8, 116u8]),
        ),
        _ => (SpecPat::Text(Seq::empty()), SpecPat::Text(Seq::empty())),
    }
}

fn pat_bytes1(a: u8) -> (r: Pat)
    ensures
        r@ == SpecPat::Text(seq![a]),
{
    let v: Vec<u8> = vec![a];
    proof {
        assert(v@ =~= seq![a]);
    }
    Pat::Text(v)
}

fn pat_bytes2(a: u8, b: u8) -> (r: Pat)
    ensures
        r@ == SpecPat::Text(seq![a, b]),
{
    let v: Vec<u8> = vec![a, b];
    proof {
        assert(v@ =~= seq![a, b]);
    }
    Pat::Text(v)
}

fn pat_bytes3(a: u8, b: u8, c: u8) -> (r: Pat)
    ensures
        r@ == SpecPat::Text(seq![a, b, c]),
{
    let v: Vec<u8> = vec![a, b, c];
    proof {
        assert(v@ =~= seq![a, b, c]);
    }
    Pat::Text(v)
}

fn pat_bytes4(a: u8, b: u8, c: u8, d: u8) -> (r: Pat)
    ensures
        r@ == SpecPat::Text(seq![a, b, c, d]),
{
    let v: Vec<u8> = vec![a, b, c, d];
    proof {
        assert(v@ =~= seq![a, b, c, d]);
    }
    Pat::Text(v)
}

fn pat_bytes5(a: u8, b: u8, c: u8, d: u8, e: u8) -> (r: Pat)
    ensures
        r@ == SpecPat::Text(seq![a, b, c, d, e]),
{
    let v: Vec<u8> = vec![a, b, c, d, e];
    proof {
        assert(v@ =~= seq![a, b, c, d, e]);
    }
    Pat::Text(v)
}

fn pat_bytes6(a: u8, b: u8, c: u8, d: u8, e: u8, f: u8) -> (r: Pat)
    ensures
        r@ == SpecPat::Text(seq![a, b, c, d, e, f]),
{
    let v: Vec<u8> = vec![a, b, c, d, e, f];
    proof {
        assert(v@ =~= seq![a, b, c, d, e, f]);
    }
    Pat::Text(v)
}

fn pat_bytes8(a: u8, b: u8, c: u8, d: u8, e: u8, f: u8, g: u8, h: u8) -> (r: Pat)
    ensures
        r@ == SpecPat::Text(seq![a, b, c, d, e, f, g, h]),
{
    let v: Vec<u8> = vec![a, b, c, d, e, f, g, h];
    proof {
        assert(v@ =~= seq![a, b, c, d, e, f, g, h]);
    }
    Pat::Text(v)
}

fn empty_pat() -> (r: Pat)
    ensures
        r@ == SpecPat::Text(Seq::<u8>::empty()),
{
    let v: Vec<u8> = Vec::new();
    Pat::Text(v)
}

fn name_pat(name: &Vec<u8>) -> (r: Pat)
    ensures
        r@ == SpecPat::Text(name@),
{
    let v = crate::copy_range(name.as_slice(), 0, name.len());
    proof {
        assert(v@ =~= name@);
    }
    Pat::Text(v)
}

/// Derive the search patterns for a literal.
pub fn lit_search_pat(lit: &LitKind) -> (r: (Pat, Pat))
    ensures
        (r.0@, r.1@) == spec_lit_search_pat(*lit),
{
    match lit {
        LitKind::Str { style: StrStyle::Cooked } => (
            pat_bytes1(34),
            pat_bytes1(34),
        ),
        LitKind::Str { style: StrStyle::Raw { hashes } } => if *hashes == 0 {
            (pat_bytes1(114), pat_bytes1(34))
        } else {
            (pat_bytes2(114, 35), pat_bytes1(35))
        },
        LitKind::ByteStr => (pat_bytes2(98, 34), pat_bytes1(34)),
        LitKind::Byte => (pat_bytes2(98, 39), pat_bytes1(39)),
        LitKind::Char => (pat_bytes1(39), pat_bytes1(39)),
        LitKind::Int { suffix: IntSuffix::Isize } => (
            Pat::Num,
            pat_bytes5(105, 115, 105, 122, 101),
        ),
        LitKind::Int { suffix: IntSuffix::Usize } => (
            Pat::Num,
            pat_bytes5(117, 115, 105, 122, 101),
        ),
        LitKind::Int { suffix: IntSuffix::OtherOrNone } => (Pat::Num, Pat::Num),
        LitKind::Float => (Pat::Num, empty_pat()),
        LitKind::Bool { value: true } => (
            pat_bytes4(116, 114, 117, 101),
            pat_bytes4(116, 114, 117, 101),
        ),
        LitKind::Bool { value: false } => (
            pat_bytes5(102, 97, 108, 115, 101),
            pat_bytes5(102, 97, 108, 115, 101),
        ),
        LitKind::OtherLit => (empty_pat(), empty_pat()),
    }
}

/// Derive the search patterns for a path.
pub fn qpath_search_pat(p: &QPath) -> (r: (Pat, Pat))
    ensures
        (r.0@, r.1@) == spec_qpath_search_pat(*p),
{
    match p {
        QPath::Resolved { has_self_ty, segments } => {
            let start = if *has_self_ty {
                pat_bytes1(60)
            } else if segments.len() > 0 {
                name_pat(&segments[0].name)
            } else {
                empty_pat()
            };
            let end = if segments.len() > 0 {
                let last = &segments[segments.len() - 1];
                if last.has_args {
                    pat_bytes1(62)
                } else {
                    name_pat(&last.name)
                }
            } else {
                empty_pat()
            };
            (start, end)
        },
        QPath::TypeRelative { name } => (empty_pat(), name_pat(name)),
        QPath::LangItem => (empty_pat(), empty_pat()),
    }
}

/// Derive the search patterns for a node from its shape alone.
pub fn expr_search_pat(e: &Expr) -> (r: (Pat, Pat))
    ensures
        (r.0@, r.1@) == spec_expr_search_pat(*e),
    decreases *e,
{
    match &e.kind {
        ExprKind::Boxed(inner) => (pat_bytes3(98, 111, 120), expr_search_pat(inner).1),
        ExprKind::ConstBlock => (
            pat_bytes5(99, 111, 110, 115, 116),
            pat_bytes1(125),
        ),
        ExprKind::Unary(UnOp::Deref, inner) => (pat_bytes1(42), expr_search_pat(inner).1),
        ExprKind::Unary(UnOp::Not, inner) => (pat_bytes1(33), expr_search_pat(inner).1),
        ExprKind::Unary(UnOp::Neg, inner) => (pat_bytes1(45), expr_search_pat(inner).1),
        ExprKind::Lit(lit) => lit_search_pat(lit),
        ExprKind::Array(_) => (pat_bytes1(91), pat_bytes1(93)),
        ExprKind::Repeat(_) => (pat_bytes1(91), pat_bytes1(93)),
        ExprKind::Call(callee, args) => if args.len() == 0 {
            (expr_search_pat(callee).0, pat_bytes1(40))
        } else {
            (expr_search_pat(callee).0, expr_search_pat(&args[args.len() - 1]).1)
        },
        ExprKind::MethodCall(args) => if args.len() == 0 {
            (empty_pat(), empty_pat())
        } else if args.len() == 1 {
            (expr_search_pat(&args[0]).0, pat_bytes1(40))
        } else {
            (expr_search_pat(&args[0]).0, expr_search_pat(&args[args.len() - 1]).1)
        },
        ExprKind::Binary(_, l, r) => (expr_search_pat(l).0, expr_search_pat(r).1),
        ExprKind::Tup(items) => if items.len() == 0 {
            (pat_bytes1(41), pat_bytes1(40))
        } else if items.len() == 1 {
            expr_search_pat(&items[0])
        } else {
            (expr_search_pat(&items[0]).0, expr_search_pat(&items[items.len() - 1]).1)
        },
        ExprKind::Assign(l, r, _) => (expr_search_pat(l).0, expr_search_pat(r).1),
        ExprKind::AssignOp(_, l, r) => (expr_search_pat(l).0, expr_search_pat(r).1),
        ExprKind::DropTemps(inner) => expr_search_pat(inner),
        ExprKind::Cast(inner) => (expr_search_pat(inner).0, empty_pat()),
        ExprKind::TypeAscription(inner) => (expr_search_pat(inner).0, empty_pat()),
        ExprKind::Let(init) => (pat_bytes3(108, 101, 116), expr_search_pat(init).1),
        ExprKind::If(_, _, _) => (pat_bytes2(105, 102), pat_bytes1(125)),
        ExprKind::Loop { body: _, label, source } => if label.is_some() {
            (pat_bytes1(39), pat_bytes1(125))
        } else {
            match source {
                LoopSource::Loop => (
                    pat_bytes4(108, 111, 111, 112),
                    pat_bytes1(125),
                ),
                LoopSource::While => (
                    pat_bytes5(119, 104, 105, 108, 101),
                    pat_bytes1(125),
                ),
                LoopSource::ForLoop => (
                    pat_bytes3(102, 111, 114),
                    pat_bytes1(125),
                ),
            }
        },
        ExprKind::Match { scrutinee, arms: _, source } => match source {
            MatchSource::Normal => (
                pat_bytes5(109, 97, 116, 99, 104),
                pat_bytes1(125),
            ),
            MatchSource::ForLoopDesugar => (
                pat_bytes3(102, 111, 114),
                pat_bytes1(125),
            ),
            MatchSource::TryDesugar => (expr_search_pat(scrutinee).0, pat_bytes1(63)),
            MatchSource::AwaitDesugar => (
                expr_search_pat(scrutinee).0,
                pat_bytes5(97, 119, 97, 105, 116),
            ),
        },
        ExprKind::Closure { body } => (empty_pat(), expr_search_pat(body).1),
        ExprKind::BlockExpr { block, label } => if label.is_some() {
            (pat_bytes1(39), pat_bytes1(125))
        } else if block.is_unsafe {
            (
                pat_bytes6(117, 110, 115, 97, 102, 101),
                pat_bytes1(125),
            )
        } else {
            (pat_bytes1(123), pat_bytes1(125))
        },
        ExprKind::Field(base, name) => (expr_search_pat(base).0, name_pat(name)),
        ExprKind::Index(base, _) => (expr_search_pat(base).0, pat_bytes1(93)),
        ExprKind::Path(qpath) => qpath_search_pat(qpath),
        ExprKind::AddrOf(inner) => (pat_bytes1(38), expr_search_pat(inner).1),
        ExprKind::Break { label, value } => match value {
            Some(inner) => (
                pat_bytes5(98, 114, 101, 97, 107),
                expr_search_pat(inner).1,
            ),
            None => match label {
                Some(name) => (pat_bytes5(98, 114, 101, 97, 107), name_pat(name)),
                None => (
                    pat_bytes5(98, 114, 101, 97, 107),
                    pat_bytes5(98, 114, 101, 97, 107),
                ),
            },
        },
        ExprKind::Continue { label } => match label {
            Some(name) => (
                pat_bytes8(99, 111, 110, 116, 105, 110, 117, 101),
                name_pat(name),
            ),
            None => (
                pat_bytes8(99, 111, 110, 116, 105, 110, 117, 101),
                pat_bytes8(99, 111, 110, 116, 105, 110, 117, 101),
            ),
        },
        ExprKind::Ret(value) => match value {
            None => (
                pat_bytes6(114, 101, 116, 117, 114, 110),
                pat_bytes6(114, 101, 116, 117, 114, 110),
            ),
            Some(_) => (empty_pat(), empty_pat()),
        },
        ExprKind::Struct(qpath) => (qpath_search_pat(qpath).0, pat_bytes1(125)),
        ExprKind::Yield(inner, YieldSource::Yield) => (
            pat_bytes5(121, 105, 101, 108, 100),
            expr_search_pat(inner).1,
        ),
        ExprKind::Yield(inner, YieldSource::Await) => (
            expr_search_pat(inner).0,
            pat_bytes5(97, 119, 97, 105, 116),
        ),
        _ => (empty_pat(), empty_pat()),
    }
}

/// Whether the node likely came out of a code generator: its source text
/// fails the shape-derived start/end test, or cannot be read at all.
pub fn is_expr_from_proc_macro(sm: &SourceMap, e: &Expr) -> (r: bool)
    requires
        sm.wf(),
        e.span.wf(),
    ensures
        r == !spec_span_matches_pat(
            *sm,
            e.span,
            spec_expr_search_pat(*e).0,
            spec_expr_search_pat(*e).1,
        ),
{
    let (start_pat, end_pat) = expr_search_pat(e);
    !span_matches_pat(sm, e.span, &start_pat, &end_pat)
}

/// Whether the span's text really reads as a `match` expression.
pub fn is_span_match(sm: &SourceMap, span: Span) -> (r: bool)
    requires
        sm.wf(),
        span.wf(),
    ensures
        r == spec_span_matches_pat(
            *sm,
            span,
            SpecPat::Text(seq![109u8, 97u8, 116u8, 99u8, 104u8]),
            SpecPat::Text(seq![125u8]),
        ),
{
    let start = pat_bytes5(109, 97, 116, 99, 104);
    let end = pat_bytes1(125);
    span_matches_pat(sm, span, &start, &end)
}

/// Whether the span's text really reads as an `if` expression.
pub fn is_span_if(sm: &SourceMap, span: Span) -> (r: bool)
    requires
        sm.wf(),
        span.wf(),
    ensures
        r == spec_span_matches_pat(
            *sm,
            span,
            SpecPat::Text(seq![105u8, 102u8]),
            SpecPat::Text(seq![125u8]),
        ),
{
    let start = pat_bytes2(105, 102);
    let end = pat_bytes1(125);
    span_matches_pat(sm, span, &start, &end)
}

/// A zero-length span never passes the written-shape test: a node whose
/// range holds no text is always treated as possibly generated.
pub proof fn lemma_empty_span_never_matches(sm: SourceMap, span: Span, sp: SpecPat, ep: SpecPat)
    requires
        span.lo == span.hi,
    ensures
        !spec_span_matches_pat(sm, span, sp, ep),
{
}

} // verus!
