//! Redundant `continue` expressions at the end of a loop body.
//!
//! A `continue` that stands as the last thing a loop iteration does changes
//! nothing and can be deleted. The deletion range is grown around the
//! keyword itself: the whitespace before it and, when a semicolon follows,
//! the whitespace up to and including that semicolon are absorbed, so that
//! removing the range leaves no stray blank line — and nothing beyond the
//! statement is ever touched.

use vstd::prelude::*;

use crate::ast::{Arm, Block, Expr, ExprKind, StmtKind};
use crate::scanner::is_whitespace_byte;
use crate::source_map::{Applicability, SourceMap};
use crate::span::{Span, ROOT_CONTEXT};

verus! {

/// The position reached from `p` after stepping back over whitespace.
pub open spec fn spec_ws_run_start(text: Seq<u8>, p: int) -> int
    decreases p,
{
    if p <= 0 || p > text.len() || !is_whitespace_byte(text[p - 1]) {
        p
    } else {
        spec_ws_run_start(text, p - 1)
    }
}

proof fn lemma_ws_run_start_bounds(text: Seq<u8>, p: int)
    requires
        0 <= p <= text.len(),
    ensures
        0 <= spec_ws_run_start(text, p) <= p,
    decreases p,
{
    if !(p <= 0 || !is_whitespace_byte(text[p - 1])) {
        lemma_ws_run_start_bounds(text, p - 1);
    }
}

/// The deletion range for a `continue` at `span`: the span must really
/// read as the keyword; the range then grows backwards over whitespace,
/// and forwards over whitespace up to and including a following
/// semicolon, or not at all when none follows. `None` when the text does
/// not resolve or does not read as `continue`.
pub open spec fn spec_expand_continue(sm: SourceMap, span: Span) -> Option<Span> {
    match sm.spec_lookup(span.lo as int, span.hi as int) {
        Some(k) => match sm.files@[k].src {
            Some(text) => {
                let start = sm.files@[k].start_pos as int;
                let a = span.lo - start;
                let b = span.hi - start;
                if b - a >= 8 && text@.subrange(a, a + 8) == seq![
                    99u8,
                    111u8,
                    110u8,
                    116u8,
                    105u8,
                    110u8,
                    117u8,
                    101u8,
                ] {
                    let back = spec_ws_run_start(text@, a);
                    let fw = crate::scanner::whitespace_end(text@, b);
                    let ext = if fw < text@.len() && text@[fw] == 59 {
                        fw + 1
                    } else {
                        b
                    };
                    Some(
                        Span {
                            lo: (start + back) as usize,
                            hi: (start + ext) as usize,
                            ctxt: span.ctxt,
                        },
                    )
                } else {
                    None
                }
            },
            None => None,
        },
        None => None,
    }
}

/// Compute the deletion range for a `continue` expression's span.
pub fn expand_continue_span(sm: &SourceMap, span: Span) -> (r: Option<Span>)
    requires
        sm.wf(),
        span.wf(),
    ensures
        r == spec_expand_continue(*sm, span),
        match r {
            Some(s) => s.wf(),
            None => true,
        },
{
    match sm.lookup(span.lo, span.hi) {
        Some(k) => {
            let f = &sm.files[k];
            match &f.src {
                Some(text) => {
                    let a = span.lo - f.start_pos;
                    let b = span.hi - f.start_pos;
                    let kw: Vec<u8> = vec![99u8, 111u8, 110u8, 116u8, 105u8, 110u8, 117u8, 101u8];
                    proof {
                        assert(kw@ =~= seq![99u8, 111u8, 110u8, 116u8, 105u8, 110u8, 117u8, 101u8]);
                    }
                    if b - a >= 8 && crate::bytes_at(text.as_slice(), a, kw.as_slice()) {
                        proof {
                            lemma_ws_run_start_bounds(text@, a as int);
                        }
                        let mut back = a;
                        while back > 0 && crate::source_map::whitespace_byte_at(
                            text.as_slice(),
                            back - 1,
                        )
                            invariant
                                0 <= back <= a,
                                a <= text@.len(),
                                spec_ws_run_start(text@, a as int) == spec_ws_run_start(
                                    text@,
                                    back as int,
                                ),
                            decreases back,
                        {
                            back -= 1;
                        }
                        let fw = crate::source_map::whitespace_end_of(text.as_slice(), b);
                        let ext = if fw < text.len() && text[fw] == 59 {
                            fw + 1
                        } else {
                            b
                        };
                        Some(Span { lo: f.start_pos + back, hi: f.start_pos + ext, ctxt: span.ctxt })
                    } else {
                        None
                    }
                },
                None => None,
            }
        },
        None => None,
    }
}

/// Whether a `continue` aimed at `dst` leaves the loop labelled `label`:
/// an unlabelled `continue` always targets the loop it stands in, and a
/// labelled one only a loop with that same label.
pub open spec fn spec_label_targets(dst: Option<Vec<u8>>, label: Option<Vec<u8>>) -> bool {
    match (dst, label) {
        (None, _) => true,
        (Some(_), None) => false,
        (Some(x), Some(y)) => x@ == y@,
    }
}

/// Decide whether the jump target names the enclosing loop.
pub fn label_targets_label(dst: &Option<Vec<u8>>, label: &Option<Vec<u8>>) -> (r: bool)
    ensures
        r == spec_label_targets(*dst, *label),
{
    match (dst, label) {
        (None, _) => true,
        (Some(_), None) => false,
        (Some(x), Some(y)) => crate::bytes_eq(x.as_slice(), y.as_slice()),
    }
}

/// One redundant `continue`: where it stands, what to delete, whether the
/// deletion must leave an empty block behind (inside a match arm), and
/// how confidently the deletion may be applied.
#[derive(Clone, Copy, PartialEq, Eq, Structural, Debug)]
pub struct ContinueFinding {
    pub lint_span: Span,
    pub removal_span: Span,
    pub needs_block_stub: bool,
    pub app: Applicability,
}

/// The findings in the expression standing last in a loop iteration.
pub open spec fn spec_final_expr_findings(
    sm: SourceMap,
    e: Expr,
    label: Option<Vec<u8>>,
    ctxt: usize,
    in_match: bool,
) -> Seq<ContinueFinding>
    decreases e,
{
    if e.span.ctxt != ctxt {
        Seq::empty()
    } else {
        match e.kind {
            ExprKind::Continue { label: dst } => if spec_label_targets(dst, label)
                && spec_expand_continue(sm, e.span) is Some {
                seq![
                    ContinueFinding {
                        lint_span: e.span,
                        removal_span: spec_expand_continue(sm, e.span)->Some_0,
                        needs_block_stub: in_match,
                        app: if ctxt == ROOT_CONTEXT {
                            Applicability::MachineApplicable
                        } else {
                            Applicability::MaybeIncorrect
                        },
                    },
                ]
            } else {
                Seq::empty()
            },
            ExprKind::If(_, then, els) => spec_final_block_findings(sm, then, label, ctxt)
                + match els {
                Some(el) => spec_final_expr_findings(sm, *el, label, ctxt, false),
                None => Seq::empty(),
            },
            ExprKind::Match { scrutinee: _, arms, source: _ } => spec_final_arm_findings(
                sm,
                arms@,
                0,
                label,
                ctxt,
            ),
            ExprKind::BlockExpr { block, label: _ } => spec_final_block_findings(
                sm,
                block,
                label,
                ctxt,
            ),
            _ => Seq::empty(),
        }
    }
}

/// The findings over a match's arms, each arm checked in match position.
pub open spec fn spec_final_arm_findings(
    sm: SourceMap,
    arms: Seq<Arm>,
    i: int,
    label: Option<Vec<u8>>,
    ctxt: usize,
) -> Seq<ContinueFinding>
    decreases arms, arms.len() - i,
{
    if i < 0 || i >= arms.len() {
        Seq::empty()
    } else {
        (match arms[i].body {
            Some(body) => if arms[i].span.ctxt == ctxt {
                spec_final_expr_findings(sm, *body, label, ctxt, true)
            } else {
                Seq::empty()
            },
            None => Seq::empty(),
        }) + spec_final_arm_findings(sm, arms, i + 1, label, ctxt)
    }
}

/// The findings in the statement standing last in a block.
pub open spec fn spec_final_block_findings(
    sm: SourceMap,
    b: Block,
    label: Option<Vec<u8>>,
    ctxt: usize,
) -> Seq<ContinueFinding>
    decreases b,
{
    if b.stmts@.len() > 0 && b.span.ctxt == ctxt {
        let stmt = b.stmts@.last();
        if stmt.span.ctxt == ctxt {
            match stmt.kind {
                StmtKind::Expr(e) => spec_final_expr_findings(sm, *e, label, ctxt, false),
                StmtKind::Semi(e) => spec_final_expr_findings(sm, *e, label, ctxt, false),
                StmtKind::Other => Seq::empty(),
            }
        } else {
            Seq::empty()
        }
    } else {
        Seq::empty()
    }
}

/// The findings of a whole loop expression; anything else has none.
pub open spec fn spec_needless_continue(sm: SourceMap, e: Expr) -> Seq<ContinueFinding> {
    match e.kind {
        ExprKind::Loop { body, label, source: _ } => spec_final_block_findings(
            sm,
            body,
            label,
            e.span.ctxt,
        ),
        _ => Seq::empty(),
    }
}

/// Collect the redundant `continue` expressions standing last in the
/// expression `e`, which itself stands last in a loop iteration.
pub fn check_final_expr(
    sm: &SourceMap,
    e: &Expr,
    label: &Option<Vec<u8>>,
    ctxt: usize,
    in_match: bool,
) -> (r: Vec<ContinueFinding>)
    requires
        sm.wf(),
        crate::ast::spec_wf_expr(*e, usize::MAX as int),
    ensures
        r@ == spec_final_expr_findings(*sm, *e, *label, ctxt, in_match),
    decreases *e,
{
    let mut out: Vec<ContinueFinding> = Vec::new();
    if e.span.ctxt != ctxt {
        return out;
    }
    match &e.kind {
        ExprKind::Continue { label: dst } => {
            if label_targets_label(dst, label) {
                match expand_continue_span(sm, e.span) {
                    Some(removal_span) => {
                        out.push(
                            ContinueFinding {
                                lint_span: e.span,
                                removal_span,
                                needs_block_stub: in_match,
                                app: if ctxt == ROOT_CONTEXT {
                                    Applicability::MachineApplicable
                                } else {
                                    Applicability::MaybeIncorrect
                                },
                            },
                        );
                        proof {
                            assert(out@ =~= spec_final_expr_findings(
                                *sm,
                                *e,
                                *label,
                                ctxt,
                                in_match,
                            ));
                        }
                    },
                    None => {},
                }
            }
            out
        },
        ExprKind::If(_, then, els) => {
            let mut first = check_final_block_stmt(sm, then, label, ctxt);
            out.append(&mut first);
            match els {
                Some(el) => {
                    let mut second = check_final_expr(sm, el, label, ctxt, false);
                    out.append(&mut second);
                },
                None => {},
            }
            proof {
                assert(out@ =~= spec_final_expr_findings(*sm, *e, *label, ctxt, in_match));
            }
            out
        },
        ExprKind::Match { scrutinee: _, arms, source: _ } => {
            let n = arms.len();
            let mut i: usize = 0;
            #[verifier::loop_isolation(false)]
            while i < n
                invariant
                    0 <= i <= n,
                    n == arms@.len(),
                    spec_final_arm_findings(*sm, arms@, 0, *label, ctxt) == out@
                        + spec_final_arm_findings(*sm, arms@, i as int, *label, ctxt),
                decreases n - i,
            {
                proof {
                    crate::ast::lemma_wf_arms_index(arms@, usize::MAX as int, i as int);
                }
                let arm = &arms[i];
                match &arm.body {
                    Some(body) => {
                        if arm.span.ctxt == ctxt {
                            let mut found = check_final_expr(sm, body, label, ctxt, true);
                            let ghost before = out@;
                            out.append(&mut found);
                            proof {
                                assert(out@ =~= before + spec_final_expr_findings(
                                    *sm,
                                    *arms@[i as int].body->Some_0,
                                    *label,
                                    ctxt,
                                    true,
                                ));
                            }
                        }
                    },
                    None => {},
                }
                i += 1;
            }
            proof {
                assert(spec_final_arm_findings(*sm, arms@, n as int, *label, ctxt)
                    =~= Seq::<ContinueFinding>::empty());
                assert(out@ =~= spec_final_expr_findings(*sm, *e, *label, ctxt, in_match));
            }
            out
        },
        ExprKind::BlockExpr { block, label: _ } => {
            let mut found = check_final_block_stmt(sm, block, label, ctxt);
            out.append(&mut found);
            proof {
                assert(out@ =~= spec_final_expr_findings(*sm, *e, *label, ctxt, in_match));
            }
            out
        },
        _ => out,
    }
}

/// Collect the redundant `continue` expressions in the statement standing
/// last in a block.
pub fn check_final_block_stmt(sm: &SourceMap, b: &Block, label: &Option<Vec<u8>>, ctxt: usize) -> (r:
    Vec<ContinueFinding>)
    requires
        sm.wf(),
        crate::ast::spec_wf_block(*b, usize::MAX as int),
    ensures
        r@ == spec_final_block_findings(*sm, *b, *label, ctxt),
    decreases *b,
{
    let n = b.stmts.len();
    if n == 0 || b.span.ctxt != ctxt {
        let empty: Vec<ContinueFinding> = Vec::new();
        return empty;
    }
    proof {
        crate::ast::lemma_wf_stmts_index(b.stmts@, usize::MAX as int, n - 1);
        assert(b.stmts@[n - 1] == b.stmts@.last());
    }
    let stmt = &b.stmts[n - 1];
    if stmt.span.ctxt != ctxt {
        let empty: Vec<ContinueFinding> = Vec::new();
        return empty;
    }
    match &stmt.kind {
        StmtKind::Expr(e) => check_final_expr(sm, e, label, ctxt, false),
        StmtKind::Semi(e) => check_final_expr(sm, e, label, ctxt, false),
        StmtKind::Other => {
            let empty: Vec<ContinueFinding> = Vec::new();
            empty
        },
    }
}

/// Collect the redundant `continue` expressions of a loop.
pub fn check_needless_continue(sm: &SourceMap, e: &Expr) -> (r: Vec<ContinueFinding>)
    requires
        sm.wf(),
        crate::ast::spec_wf_expr(*e, usize::MAX as int),
    ensures
        r@ == spec_needless_continue(*sm, *e),
{
    match &e.kind {
        ExprKind::Loop { body, label, source: _ } => check_final_block_stmt(
            sm,
            body,
            label,
            e.span.ctxt,
        ),
        _ => {
            let empty: Vec<ContinueFinding> = Vec::new();
            empty
        },
    }
}

} // verus!
