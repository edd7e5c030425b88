//! Assembling replacement text for suggestions.
//!
//! A snippet lifted for a suggestion must be re-indented against the place
//! it will be inserted at, wrapped in parentheses when the surrounding
//! precedence requires it, and carry an honest confidence tag; when no text
//! can be extracted at all a placeholder is produced instead.

use vstd::prelude::*;

use crate::ast::{BinOpKind, Expr, ExprKind};
use crate::hygiene::ContextTree;
use crate::reindent::{reindent_multiline, spec_reindent};
use crate::source_map::{spec_app_after_snippet, spec_app_for_macro_arg, Applicability, SourceMap};
use crate::span::{Span, ROOT_CONTEXT};

verus! {

/// The syntactic position a snippet is inserted into, from loosest to
/// tightest binding. The position decides whether the snippet must be
/// parenthesized.
#[derive(Clone, Copy, PartialEq, Eq, Structural, Debug)]
pub enum ExprPosition {
    Paren,
    AssignmentRhs,
    AssignmentLhs,
    RangeLhs,
    RangeRhs,
    OrLhs,
    OrRhs,
    AndLhs,
    AndRhs,
    Let,
    EqLhs,
    EqRhs,
    BitOrLhs,
    BitOrRhs,
    BitXorLhs,
    BitXorRhs,
    BitAndLhs,
    BitAndRhs,
    ShiftLhs,
    ShiftRhs,
    AddLhs,
    AddRhs,
    MulLhs,
    MulRhs,
    Cast,
    Prefix,
    Postfix,
}

/// The binding strength of a position: later positions bind tighter.
pub open spec fn spec_position_rank(p: ExprPosition) -> int {
    match p {
        ExprPosition::Paren => 0,
        ExprPosition::AssignmentRhs => 1,
        ExprPosition::AssignmentLhs => 2,
        ExprPosition::RangeLhs => 3,
        ExprPosition::RangeRhs => 4,
        ExprPosition::OrLhs => 5,
        ExprPosition::OrRhs => 6,
        ExprPosition::AndLhs => 7,
        ExprPosition::AndRhs => 8,
        ExprPosition::Let => 9,
        ExprPosition::EqLhs => 10,
        ExprPosition::EqRhs => 11,
        ExprPosition::BitOrLhs => 12,
        ExprPosition::BitOrRhs => 13,
        ExprPosition::BitXorLhs => 14,
        ExprPosition::BitXorRhs => 15,
        ExprPosition::BitAndLhs => 16,
        ExprPosition::BitAndRhs => 17,
        ExprPosition::ShiftLhs => 18,
        ExprPosition::ShiftRhs => 19,
        ExprPosition::AddLhs => 20,
        ExprPosition::AddRhs => 21,
        ExprPosition::MulLhs => 22,
        ExprPosition::MulRhs => 23,
        ExprPosition::Cast => 24,
        ExprPosition::Prefix => 25,
        ExprPosition::Postfix => 26,
    }
}

impl ExprPosition {
    /// The position's binding strength as a number.
    pub fn rank(self) -> (r: u8)
        ensures
            r as int == spec_position_rank(self),
    {
        match self {
            ExprPosition::Paren => 0,
            ExprPosition::AssignmentRhs => 1,
            ExprPosition::AssignmentLhs => 2,
            ExprPosition::RangeLhs => 3,
            ExprPosition::RangeRhs => 4,
            ExprPosition::OrLhs => 5,
            ExprPosition::OrRhs => 6,
            ExprPosition::AndLhs => 7,
            ExprPosition::AndRhs => 8,
            ExprPosition::Let => 9,
            ExprPosition::EqLhs => 10,
            ExprPosition::EqRhs => 11,
            ExprPosition::BitOrLhs => 12,
            ExprPosition::BitOrRhs => 13,
            ExprPosition::BitXorLhs => 14,
            ExprPosition::BitXorRhs => 15,
            ExprPosition::BitAndLhs => 16,
            ExprPosition::BitAndRhs => 17,
            ExprPosition::ShiftLhs => 18,
            ExprPosition::ShiftRhs => 19,
            ExprPosition::AddLhs => 20,
            ExprPosition::AddRhs => 21,
            ExprPosition::MulLhs => 22,
            ExprPosition::MulRhs => 23,
            ExprPosition::Cast => 24,
            ExprPosition::Prefix => 25,
            ExprPosition::Postfix => 26,
        }
    }
}

/// The position of a node within its parent, decided by span identity.
///
/// A `DropTemps` wrapper is invisible in source text; callers pass the
/// wrapper's own parent instead of the wrapper. With no parent expression
/// the position is the loosest one.
pub open spec fn spec_position_of_expr(child_span: Span, parent: Option<Expr>) -> ExprPosition {
    match parent {
        None => ExprPosition::Paren,
        Some(p) => match p.kind {
            ExprKind::Binary(op, lhs, _) => {
                let is_lhs = lhs.span == child_span;
                match op.node {
                    BinOpKind::Add | BinOpKind::Sub => if is_lhs {
                        ExprPosition::AddLhs
                    } else {
                        ExprPosition::AddRhs
                    },
                    BinOpKind::Mul | BinOpKind::Div | BinOpKind::Rem => if is_lhs {
                        ExprPosition::MulLhs
                    } else {
                        ExprPosition::MulRhs
                    },
                    BinOpKind::And => if is_lhs {
                        ExprPosition::AndLhs
                    } else {
                        ExprPosition::AndRhs
                    },
                    BinOpKind::Or => if is_lhs {
                        ExprPosition::OrLhs
                    } else {
                        ExprPosition::OrRhs
                    },
                    BinOpKind::BitXor => if is_lhs {
                        ExprPosition::BitXorLhs
                    } else {
                        ExprPosition::BitXorRhs
                    },
                    BinOpKind::BitAnd => if is_lhs {
                        ExprPosition::BitAndLhs
                    } else {
                        ExprPosition::BitAndRhs
                    },
                    BinOpKind::BitOr => if is_lhs {
                        ExprPosition::BitOrLhs
                    } else {
                        ExprPosition::BitOrRhs
                    },
                    BinOpKind::Shl | BinOpKind::Shr => if is_lhs {
                        ExprPosition::ShiftLhs
                    } else {
                        ExprPosition::ShiftRhs
                    },
                    _ => if is_lhs {
                        ExprPosition::EqLhs
                    } else {
                        ExprPosition::EqRhs
                    },
                }
            },
            ExprKind::Unary(_, _) => ExprPosition::Prefix,
            ExprKind::AddrOf(_) => ExprPosition::Prefix,
            ExprKind::Cast(_) => ExprPosition::Cast,
            ExprKind::TypeAscription(_) => ExprPosition::Cast,
            ExprKind::Assign(lhs, _, _) => if lhs.span == child_span {
                ExprPosition::AssignmentLhs
            } else {
                ExprPosition::AssignmentRhs
            },
            ExprKind::AssignOp(_, lhs, _) => if lhs.span == child_span {
                ExprPosition::AssignmentLhs
            } else {
                ExprPosition::AssignmentRhs
            },
            ExprKind::Call(callee, _) => if callee.span == child_span {
                ExprPosition::Postfix
            } else {
                ExprPosition::Paren
            },
            ExprKind::MethodCall(args) => if args@.len() > 0 && args@[0].span == child_span {
                ExprPosition::Postfix
            } else {
                ExprPosition::Paren
            },
            ExprKind::Index(base, _) => if base.span == child_span {
                ExprPosition::Postfix
            } else {
                ExprPosition::Paren
            },
            ExprKind::Match { scrutinee: _, arms: _, source } => if source
                is TryDesugar || source is AwaitDesugar {
                ExprPosition::Postfix
            } else {
                ExprPosition::Paren
            },
            ExprKind::Field(_, _) => ExprPosition::Postfix,
            _ => ExprPosition::Paren,
        },
    }
}

/// Decide the position of the node whose span is `child_span` within its
/// parent.
pub fn position_of_expr(child_span: Span, parent: Option<&Expr>) -> (r: ExprPosition)
    ensures
        ({
            match parent {
                Some(p) => r == spec_position_of_expr(child_span, Some(*p)),
                None => r == spec_position_of_expr(child_span, None::<Expr>),
            }
        }),
{
    match parent {
        None => ExprPosition::Paren,
        Some(p) => match &p.kind {
            ExprKind::Binary(op, lhs, _) => {
                let is_lhs = spans_equal(lhs.span, child_span);
                match op.node {
                    BinOpKind::Add | BinOpKind::Sub => if is_lhs {
                        ExprPosition::AddLhs
                    } else {
                        ExprPosition::AddRhs
                    },
                    BinOpKind::Mul | BinOpKind::Div | BinOpKind::Rem => if is_lhs {
                        ExprPosition::MulLhs
                    } else {
                        ExprPosition::MulRhs
                    },
                    BinOpKind::And => if is_lhs {
                        ExprPosition::AndLhs
                    } else {
                        ExprPosition::AndRhs
                    },
                    BinOpKind::Or => if is_lhs {
                        ExprPosition::OrLhs
                    } else {
                        ExprPosition::OrRhs
                    },
                    BinOpKind::BitXor => if is_lhs {
                        ExprPosition::BitXorLhs
                    } else {
                        ExprPosition::BitXorRhs
                    },
                    BinOpKind::BitAnd => if is_lhs {
                        ExprPosition::BitAndLhs
                    } else {
                        ExprPosition::BitAndRhs
                    },
                    BinOpKind::BitOr => if is_lhs {
                        ExprPosition::BitOrLhs
                    } else {
                        ExprPosition::BitOrRhs
                    },
                    BinOpKind::Shl | BinOpKind::Shr => if is_lhs {
                        ExprPosition::ShiftLhs
                    } else {
                        ExprPosition::ShiftRhs
                    },
                    _ => if is_lhs {
                        ExprPosition::EqLhs
                    } else {
                        ExprPosition::EqRhs
                    },
                }
            },
            ExprKind::Unary(_, _) => ExprPosition::Prefix,
            ExprKind::AddrOf(_) => ExprPosition::Prefix,
            ExprKind::Cast(_) => ExprPosition::Cast,
            ExprKind::TypeAscription(_) => ExprPosition::Cast,
            ExprKind::Assign(lhs, _, _) => if spans_equal(lhs.span, child_span) {
                ExprPosition::AssignmentLhs
            } else {
                ExprPosition::AssignmentRhs
            },
            ExprKind::AssignOp(_, lhs, _) => if spans_equal(lhs.span, child_span) {
                ExprPosition::AssignmentLhs
            } else {
                ExprPosition::AssignmentRhs
            },
            ExprKind::Call(callee, _) => if spans_equal(callee.span, child_span) {
                ExprPosition::Postfix
            } else {
                ExprPosition::Paren
            },
            ExprKind::MethodCall(args) => if args.len() > 0 && spans_equal(
                args[0].span,
                child_span,
            ) {
                ExprPosition::Postfix
            } else {
                ExprPosition::Paren
            },
            ExprKind::Index(base, _) => if spans_equal(base.span, child_span) {
                ExprPosition::Postfix
            } else {
                ExprPosition::Paren
            },
            ExprKind::Match { scrutinee: _, arms: _, source } => if matches!(
                source,
                crate::ast::MatchSource::TryDesugar | crate::ast::MatchSource::AwaitDesugar
            ) {
                ExprPosition::Postfix
            } else {
                ExprPosition::Paren
            },
            ExprKind::Field(_, _) => ExprPosition::Postfix,
            _ => ExprPosition::Paren,
        },
    }
}

fn spans_equal(a: Span, b: Span) -> (r: bool)
    ensures
        r == (a == b),
{
    a.lo == b.lo && a.hi == b.hi && a.ctxt == b.ctxt
}

/// The effective target indent for a block snippet.
pub open spec fn spec_block_indent(sm: SourceMap, indent_relative_to: Option<Span>) -> Option<
    int,
> {
    match indent_relative_to {
        Some(s) => sm.spec_indent_of(s),
        None => None,
    }
}

/// The text of a block snippet: the span's text (or the default), trimmed
/// of its own indentation except on the first line, re-indented relative
/// to the given span.
pub open spec fn spec_snippet_block(
    sm: SourceMap,
    span: Span,
    default: Seq<u8>,
    indent_relative_to: Option<Span>,
) -> Seq<u8> {
    let snip = match sm.spec_snippet(span) {
        Some(text) => text,
        None => default,
    };
    let ind = match spec_block_indent(sm, indent_relative_to) {
        Some(n) => n,
        None => 0,
    };
    spec_reindent(snip, true, ind)
}

/// Extract a block-shaped snippet, keeping the first line at indent zero
/// and aligning the rest relative to `indent_relative_to`.
pub fn snippet_block(sm: &SourceMap, span: Span, default: &[u8], indent_relative_to: Option<
    Span,
>) -> (r: Vec<u8>)
    requires
        sm.wf(),
        span.wf(),
        match indent_relative_to {
            Some(s) => s.wf(),
            None => true,
        },
    ensures
        r@ == spec_snippet_block(*sm, span, default@, indent_relative_to),
{
    let snip = sm.snippet(span, default);
    let indent: Option<usize> = match indent_relative_to {
        Some(s) => sm.indent_of(s),
        None => None,
    };
    reindent_multiline(snip.as_slice(), true, indent)
}

/// Like [`snippet_block`], but keeping the confidence tag honest the way
/// [`SourceMap::snippet_with_applicability`] does.
pub fn snippet_block_with_applicability(
    sm: &SourceMap,
    span: Span,
    default: &[u8],
    indent_relative_to: Option<Span>,
    app: &mut Applicability,
) -> (r: Vec<u8>)
    requires
        sm.wf(),
        span.wf(),
        match indent_relative_to {
            Some(s) => s.wf(),
            None => true,
        },
    ensures
        r@ == spec_snippet_block(*sm, span, default@, indent_relative_to),
        *final(app) == spec_app_after_snippet(
            *old(app),
            span.ctxt != ROOT_CONTEXT,
            sm.spec_snippet(span) is Some,
        ),
{
    let snip = sm.snippet_with_applicability(span, default, app);
    let indent: Option<usize> = match indent_relative_to {
        Some(s) => sm.indent_of(s),
        None => None,
    };
    reindent_multiline(snip.as_slice(), true, indent)
}

/// The body of [`expr_block`] once the block snippet `code` and the
/// optional trailing `string` are known: a block expression keeps its own
/// braces, anything else is wrapped in fresh ones, and a non-empty
/// `string` moves into the block on its own line.
pub open spec fn spec_expr_block_text(code: Seq<u8>, is_block: bool, string: Seq<u8>) -> Seq<
    u8,
> {
    if is_block {
        code + string
    } else if string.len() == 0 {
        seq![123u8, 32u8] + code + seq![32u8, 125u8]
    } else {
        seq![123u8, 10u8] + code + seq![59u8, 10u8] + string + seq![10u8, 125u8]
    }
}

/// Format a node as a block: its block snippet, wrapped in braces when the
/// node is not itself a block. A node produced by an expansion is instead
/// rendered as a braced copy of its outermost call site text, since its
/// own text cannot be trusted.
pub fn expr_block(
    sm: &SourceMap,
    tree: &ContextTree,
    expr: &Expr,
    option: Option<Vec<u8>>,
    default: &[u8],
    indent_relative_to: Option<Span>,
) -> (r: Vec<u8>)
    requires
        sm.wf(),
        tree.wf(),
        expr.span.wf(),
        tree.valid_ctxt(expr.span.ctxt as int),
        match indent_relative_to {
            Some(s) => s.wf(),
            None => true,
        },
    ensures
        ({
            let string = match option {
                Some(s) => s@,
                None => Seq::<u8>::empty(),
            };
            if expr.span.ctxt != ROOT_CONTEXT {
                ({
                    let callsite_text = match sm.spec_snippet(
                        tree.spec_walk(expr.span, ROOT_CONTEXT as int),
                    ) {
                        Some(text) => text,
                        None => default@,
                    };
                    r@ == seq![123u8, 32u8] + callsite_text + seq![32u8, 125u8]
                })
            } else {
                r@ == spec_expr_block_text(
                    spec_snippet_block(*sm, expr.span, default@, indent_relative_to),
                    expr.kind is BlockExpr,
                    string,
                )
            }
        }),
{
    let code = snippet_block(sm, expr.span, default, indent_relative_to);
    let string: Vec<u8> = match option {
        Some(s) => s,
        None => Vec::new(),
    };
    if expr.span.from_expansion() {
        let callsite = sm.snippet_with_macro_callsite(tree, expr.span, default);
        let mut out: Vec<u8> = vec![123u8, 32u8];
        proof {
            assert(out@ =~= seq![123u8, 32u8]);
        }
        let mut mid = callsite;
        out.append(&mut mid);
        out.push(32);
        out.push(125);
        proof {
            assert(out@ =~= seq![123u8, 32u8] + (match sm.spec_snippet(
                tree.spec_walk(expr.span, ROOT_CONTEXT as int),
            ) {
                Some(text) => text,
                None => default@,
            }) + seq![32u8, 125u8]);
        }
        out
    } else if matches!(&expr.kind, ExprKind::BlockExpr { .. }) {
        let mut out = code;
        let mut tail = string;
        out.append(&mut tail);
        out
    } else if string.len() == 0 {
        let mut out: Vec<u8> = vec![123u8, 32u8];
        proof {
            assert(out@ =~= seq![123u8, 32u8]);
        }
        let mut mid = code;
        out.append(&mut mid);
        out.push(32);
        out.push(125);
        proof {
            assert(out@ =~= seq![123u8, 32u8] + spec_snippet_block(
                *sm,
                expr.span,
                default@,
                indent_relative_to,
            ) + seq![32u8, 125u8]);
        }
        out
    } else {
        let mut out: Vec<u8> = vec![123u8, 10u8];
        proof {
            assert(out@ =~= seq![123u8, 10u8]);
        }
        let mut mid = code;
        out.append(&mut mid);
        out.push(59);
        out.push(10);
        let mut tail = string;
        out.append(&mut tail);
        out.push(10);
        out.push(125);
        proof {
            assert(out@ =~= seq![123u8, 10u8] + spec_snippet_block(
                *sm,
                expr.span,
                default@,
                indent_relative_to,
            ) + seq![59u8, 10u8] + (match option {
                Some(s) => s@,
                None => Seq::<u8>::empty(),
            }) + seq![10u8, 125u8]);
        }
        out
    }
}

/// Whether a snippet of the node must be parenthesized to sit at the
/// target position. A node whose operand spans show it was already written
/// with its own wrapping, or a snippet that already starts with `(`, needs
/// none.
pub open spec fn spec_needs_paren(e: Expr, target: ExprPosition, snip: Seq<u8>) -> bool {
    let ctxt = e.span.ctxt;
    match e.kind {
        ExprKind::Binary(op, lhs, rhs) => if (ctxt == lhs.span.ctxt && e.span.lo != lhs.span.lo)
            || (ctxt == rhs.span.ctxt && e.span.hi != rhs.span.hi) {
            false
        } else {
            match op.node {
                BinOpKind::Add | BinOpKind::Sub => spec_position_rank(target)
                    > spec_position_rank(ExprPosition::AddLhs),
                BinOpKind::Mul | BinOpKind::Div | BinOpKind::Rem => spec_position_rank(target)
                    > spec_position_rank(ExprPosition::MulLhs),
                BinOpKind::And => spec_position_rank(target) > spec_position_rank(
                    ExprPosition::AndLhs,
                ),
                BinOpKind::Or => spec_position_rank(target) > spec_position_rank(
                    ExprPosition::OrLhs,
                ),
                BinOpKind::BitXor => spec_position_rank(target) > spec_position_rank(
                    ExprPosition::BitXorLhs,
                ),
                BinOpKind::BitAnd => spec_position_rank(target) > spec_position_rank(
                    ExprPosition::BitAndLhs,
                ),
                BinOpKind::BitOr => spec_position_rank(target) > spec_position_rank(
                    ExprPosition::BitOrLhs,
                ),
                BinOpKind::Shl | BinOpKind::Shr => spec_position_rank(target)
                    > spec_position_rank(ExprPosition::ShiftLhs),
                _ => spec_position_rank(target) > spec_position_rank(ExprPosition::EqLhs),
            }
        },
        ExprKind::Boxed(_) | ExprKind::Unary(_, _) | ExprKind::AddrOf(_) => if snip.len() > 0
            && snip[0] == 40 {
            false
        } else {
            spec_position_rank(target) > spec_position_rank(ExprPosition::Prefix)
        },
        ExprKind::Let(_) => if snip.len() > 0 && snip[0] == 40 {
            false
        } else {
            spec_position_rank(target) > spec_position_rank(ExprPosition::Let)
        },
        ExprKind::Cast(inner) => if ctxt == inner.span.ctxt && e.span.lo != inner.span.lo {
            false
        } else {
            spec_position_rank(target) > spec_position_rank(ExprPosition::Cast)
        },
        ExprKind::TypeAscription(_) => spec_position_rank(target) > spec_position_rank(
            ExprPosition::Cast,
        ),
        ExprKind::Closure { .. } | ExprKind::Break { .. } | ExprKind::Ret(_) | ExprKind::Yield(
            _,
            _,
        ) | ExprKind::Assign(_, _, _) | ExprKind::AssignOp(_, _, _) => spec_position_rank(target)
            > spec_position_rank(ExprPosition::AssignmentRhs),
        _ => false,
    }
}

/// Decide whether a snippet of `e` needs parentheses at `target`.
pub fn needs_paren(e: &Expr, target: ExprPosition, snip: &Vec<u8>) -> (r: bool)
    ensures
        r == spec_needs_paren(*e, target, snip@),
{
    let ctxt = e.span.ctxt;
    match &e.kind {
        ExprKind::Binary(op, lhs, rhs) => if (ctxt == lhs.span.ctxt && e.span.lo != lhs.span.lo)
            || (ctxt == rhs.span.ctxt && e.span.hi != rhs.span.hi) {
            false
        } else {
            let threshold = match op.node {
                BinOpKind::Add | BinOpKind::Sub => ExprPosition::AddLhs,
                BinOpKind::Mul | BinOpKind::Div | BinOpKind::Rem => ExprPosition::MulLhs,
                BinOpKind::And => ExprPosition::AndLhs,
                BinOpKind::Or => ExprPosition::OrLhs,
                BinOpKind::BitXor => ExprPosition::BitXorLhs,
                BinOpKind::BitAnd => ExprPosition::BitAndLhs,
                BinOpKind::BitOr => ExprPosition::BitOrLhs,
                BinOpKind::Shl | BinOpKind::Shr => ExprPosition::ShiftLhs,
                _ => ExprPosition::EqLhs,
            };
            target.rank() > threshold.rank()
        },
        ExprKind::Boxed(_) | ExprKind::Unary(_, _) | ExprKind::AddrOf(_) => if snip.len() > 0
            && snip[0] == 40 {
            false
        } else {
            target.rank() > ExprPosition::Prefix.rank()
        },
        ExprKind::Let(_) => if snip.len() > 0 && snip[0] == 40 {
            false
        } else {
            target.rank() > ExprPosition::Let.rank()
        },
        ExprKind::Cast(inner) => if ctxt == inner.span.ctxt && e.span.lo != inner.span.lo {
            false
        } else {
            target.rank() > ExprPosition::Cast.rank()
        },
        ExprKind::TypeAscription(_) => target.rank() > ExprPosition::Cast.rank(),
        ExprKind::Closure { .. } | ExprKind::Break { .. } | ExprKind::Ret(_) | ExprKind::Yield(
            _,
            _,
        ) | ExprKind::Assign(_, _, _) | ExprKind::AssignOp(_, _, _) => target.rank()
            > ExprPosition::AssignmentRhs.rank(),
        _ => false,
    }
}

/// The placeholder emitted when no snippet can be extracted.
pub open spec fn spec_placeholder() -> Seq<u8> {
    seq![40u8, 46u8, 46u8, 41u8]
}

/// Extract the snippet of a node for insertion at `target_position` in
/// context `ctxt`, adding parentheses when the position requires them.
///
/// The node's context is walked up to `ctxt` first, so that a call to an
/// expansion is reproduced rather than the expansion's output. A snippet
/// taken from inside an expansion keeps its text but drops the confidence
/// to `MaybeIncorrect`; when no text is available at all the placeholder
/// `(..)` is produced and `MachineApplicable` drops to `HasPlaceholders`.
pub fn snippet_expr(
    sm: &SourceMap,
    tree: &ContextTree,
    expr: &Expr,
    target_position: ExprPosition,
    ctxt: usize,
    app: &mut Applicability,
) -> (r: Vec<u8>)
    requires
        sm.wf(),
        tree.wf(),
        expr.span.wf(),
        tree.valid_ctxt(expr.span.ctxt as int),
    ensures
        ({
            let walked = tree.spec_walk(expr.span, ctxt as int);
            if walked.ctxt == ctxt {
                ({
                    let is_mac_call = expr.span.ctxt != ctxt;
                    &&& *final(app) == spec_app_after_snippet(
                        *old(app),
                        walked.ctxt != ROOT_CONTEXT,
                        sm.spec_snippet(walked) is Some,
                    )
                    &&& match sm.spec_snippet(walked) {
                        Some(text) => if is_mac_call || !spec_needs_paren(
                            *expr,
                            target_position,
                            text,
                        ) {
                            r@ == text
                        } else {
                            r@ == seq![40u8] + text + seq![41u8]
                        },
                        None => r@ == spec_placeholder(),
                    }
                })
            } else {
                ({
                    &&& *final(app) == spec_app_after_snippet(
                        spec_app_for_macro_arg(*old(app)),
                        expr.span.ctxt != ROOT_CONTEXT,
                        sm.spec_snippet(expr.span) is Some,
                    )
                    &&& match sm.spec_snippet(expr.span) {
                        Some(text) => if !spec_needs_paren(*expr, target_position, text) {
                            r@ == text
                        } else {
                            r@ == seq![40u8] + text + seq![41u8]
                        },
                        None => r@ == spec_placeholder(),
                    }
                })
            }
        }),
{
    let (target_span, is_mac_call) = match tree.walk_span_to_context(expr.span, ctxt) {
        Some(outer_span) => (outer_span, expr.span.ctxt != ctxt),
        None => {
            if !matches!(*app, Applicability::Unspecified) {
                *app = Applicability::MaybeIncorrect;
            }
            (expr.span, false)
        },
    };
    if !matches!(*app, Applicability::Unspecified) && target_span.from_expansion() {
        *app = Applicability::MaybeIncorrect;
    }
    match sm.snippet_opt(target_span) {
        None => {
            if matches!(*app, Applicability::MachineApplicable) {
                *app = Applicability::HasPlaceholders;
            }
            let placeholder: Vec<u8> = vec![40u8, 46u8, 46u8, 41u8];
            proof {
                assert(placeholder@ =~= spec_placeholder());
            }
            placeholder
        },
        Some(snip) => {
            if is_mac_call {
                snip
            } else if needs_paren(expr, target_position, &snip) {
                let mut out: Vec<u8> = vec![40u8];
                proof {
                    assert(out@ =~= seq![40u8]);
                }
                let mut mid = snip;
                out.append(&mut mid);
                out.push(41);
                out
            } else {
                snip
            }
        },
    }
}

} // verus!
