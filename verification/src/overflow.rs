//! The classic C overflow-check shape.
//!
//! `a + b < a`, `a > a + b`, `a < a - b` and `a - b > a` test for wrap-around
//! the way C code does; on unsigned types the arithmetic itself already
//! panics or wraps before the comparison can observe anything. The check is
//! purely structural over the comparison's shape and the opaque type tags,
//! and it only fires when the repeated operand is free of side effects, so
//! that reasoning about it as a repeated value is sound.

use vstd::prelude::*;

use crate::ast::{spec_eq_expr, spec_is_pure, BinOpKind, Expr, ExprKind, TyTag};

verus! {

/// The operand comparison once the three parts are identified: everything
/// shares one unsigned type, the lone operand is pure, and it repeats one
/// of the two summands — only the left one unless the operation commutes.
pub open spec fn spec_overflow_parts(op_lhs: Expr, op_rhs: Expr, other: Expr, commutative: bool) -> bool {
    &&& spec_is_pure(other)
    &&& op_lhs.ty is Uint
    &&& op_lhs.ty == op_rhs.ty
    &&& op_lhs.ty == other.ty
    &&& (spec_eq_expr(op_lhs, other) || (commutative && spec_eq_expr(op_rhs, other)))
}

/// The fallback shape: the greater side is a subtraction in the
/// comparison's own context.
pub open spec fn spec_overflow_sub_side(e: Expr, lt: Expr, gt: Expr) -> bool {
    match gt.kind {
        ExprKind::Binary(op2, a, b) => op2.node is Sub && gt.span.ctxt == e.span.ctxt
            && spec_overflow_parts(*a, *b, lt, false),
        _ => false,
    }
}

/// Whether the comparison reads as a C-style wrap-around test.
pub open spec fn spec_overflow_check(e: Expr) -> bool {
    match e.kind {
        ExprKind::Binary(op, lhs, rhs) => if op.node is Lt || op.node is Gt {
            let lt = if op.node is Lt {
                *lhs
            } else {
                *rhs
            };
            let gt = if op.node is Lt {
                *rhs
            } else {
                *lhs
            };
            match lt.kind {
                ExprKind::Binary(op2, a, b) => if op2.node is Add && lt.span.ctxt
                    == e.span.ctxt {
                    spec_overflow_parts(*a, *b, gt, true)
                } else {
                    spec_overflow_sub_side(e, lt, gt)
                },
                _ => spec_overflow_sub_side(e, lt, gt),
            }
        } else {
            false
        },
        _ => false,
    }
}

fn overflow_parts(op_lhs: &Expr, op_rhs: &Expr, other: &Expr, commutative: bool) -> (r: bool)
    ensures
        r == spec_overflow_parts(*op_lhs, *op_rhs, *other, commutative),
{
    crate::ast::is_pure(other) && matches!(op_lhs.ty, TyTag::Uint { .. }) && op_lhs.ty
        == op_rhs.ty && op_lhs.ty == other.ty && (crate::ast::eq_expr(op_lhs, other) || (
    commutative && crate::ast::eq_expr(op_rhs, other)))
}

fn overflow_sub_side(e: &Expr, lt: &Expr, gt: &Expr) -> (r: bool)
    ensures
        r == spec_overflow_sub_side(*e, *lt, *gt),
{
    match &gt.kind {
        ExprKind::Binary(op2, a, b) => matches!(op2.node, BinOpKind::Sub) && gt.span.ctxt
            == e.span.ctxt && overflow_parts(a, b, lt, false),
        _ => false,
    }
}

/// Decide whether a comparison is a classic C overflow condition that
/// cannot work under checked unsigned arithmetic.
pub fn check_overflow_conditional(e: &Expr) -> (r: bool)
    ensures
        r == spec_overflow_check(*e),
{
    match &e.kind {
        ExprKind::Binary(op, lhs, rhs) => {
            if !(matches!(op.node, BinOpKind::Lt) || matches!(op.node, BinOpKind::Gt)) {
                return false;
            }
            let (lt, gt) = if matches!(op.node, BinOpKind::Lt) {
                (&**lhs, &**rhs)
            } else {
                (&**rhs, &**lhs)
            };
            match &lt.kind {
                ExprKind::Binary(op2, a, b) => {
                    if matches!(op2.node, BinOpKind::Add) && lt.span.ctxt == e.span.ctxt {
                        overflow_parts(a, b, gt, true)
                    } else {
                        overflow_sub_side(e, lt, gt)
                    }
                },
                _ => overflow_sub_side(e, lt, gt),
            }
        },
        _ => false,
    }
}

} // verus!
