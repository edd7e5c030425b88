use srclint::ast::{BinOp, BinOpKind, Block, Expr, ExprKind, TyTag, UnOp};
use srclint::hygiene::ContextTree;
use srclint::source_map::{Applicability, SourceBuffer, SourceMap};
use srclint::span::{Span, ROOT_CONTEXT};
use srclint::sugg::{expr_block, position_of_expr, snippet_block, snippet_expr, ExprPosition};

fn sp(lo: usize, hi: usize, ctxt: usize) -> Span {
    Span { lo, hi, ctxt }
}

fn one_file(text: &str) -> SourceMap {
    SourceMap {
        files: vec![SourceBuffer {
            start_pos: 0,
            end_pos: text.len(),
            src: Some(text.as_bytes().to_vec()),
        }],
    }
}

fn expr(span: Span, kind: ExprKind) -> Expr {
    Expr { span, kind, ty: TyTag::Unknown }
}

fn add_expr(span: Span, lhs: Span, rhs: Span, op: Span) -> Expr {
    let l = expr(lhs, ExprKind::OtherExpr);
    let r = expr(rhs, ExprKind::OtherExpr);
    expr(span, ExprKind::Binary(BinOp { node: BinOpKind::Add, span: op }, Box::new(l), Box::new(r)))
}

#[test]
fn test_position_rank_orders_positions() {
    assert!(ExprPosition::MulLhs.rank() > ExprPosition::AddLhs.rank());
    assert!(ExprPosition::AddLhs.rank() > ExprPosition::EqLhs.rank());
    assert!(ExprPosition::Prefix.rank() > ExprPosition::Cast.rank());
    assert!(ExprPosition::Paren.rank() < ExprPosition::AssignmentRhs.rank());
}

#[test]
fn test_position_of_expr() {
    let child = sp(0, 1, ROOT_CONTEXT);
    let rhs = sp(4, 5, ROOT_CONTEXT);
    let parent = add_expr(sp(0, 5, ROOT_CONTEXT), child, rhs, sp(2, 3, ROOT_CONTEXT));
    assert_eq!(ExprPosition::AddLhs, position_of_expr(child, Some(&parent)));
    assert_eq!(ExprPosition::AddRhs, position_of_expr(rhs, Some(&parent)));
    assert_eq!(ExprPosition::Paren, position_of_expr(child, None));
    let un = expr(
        sp(0, 5, ROOT_CONTEXT),
        ExprKind::Unary(UnOp::Neg, Box::new(expr(sp(1, 5, ROOT_CONTEXT), ExprKind::OtherExpr))),
    );
    assert_eq!(ExprPosition::Prefix, position_of_expr(sp(1, 5, ROOT_CONTEXT), Some(&un)));
}

#[test]
fn test_snippet_expr_adds_parens_in_tighter_position() {
    let sm = one_file("a + b");
    let tree = ContextTree { entries: vec![] };
    let node = add_expr(
        sp(0, 5, ROOT_CONTEXT),
        sp(0, 1, ROOT_CONTEXT),
        sp(4, 5, ROOT_CONTEXT),
        sp(2, 3, ROOT_CONTEXT),
    );
    let mut app = Applicability::MachineApplicable;
    let text = snippet_expr(&sm, &tree, &node, ExprPosition::MulLhs, ROOT_CONTEXT, &mut app);
    assert_eq!(b"(a + b)".to_vec(), text);
    assert_eq!(Applicability::MachineApplicable, app);
    // in a looser position the snippet stays bare
    let mut app = Applicability::MachineApplicable;
    let text = snippet_expr(&sm, &tree, &node, ExprPosition::EqLhs, ROOT_CONTEXT, &mut app);
    assert_eq!(b"a + b".to_vec(), text);
}

#[test]
fn test_snippet_expr_placeholder_when_no_text() {
    let sm = one_file("a + b");
    let tree = ContextTree { entries: vec![] };
    let node = add_expr(
        sp(50, 55, ROOT_CONTEXT),
        sp(50, 51, ROOT_CONTEXT),
        sp(54, 55, ROOT_CONTEXT),
        sp(52, 53, ROOT_CONTEXT),
    );
    let mut app = Applicability::MachineApplicable;
    let text = snippet_expr(&sm, &tree, &node, ExprPosition::MulLhs, ROOT_CONTEXT, &mut app);
    assert_eq!(b"(..)".to_vec(), text);
    assert_eq!(Applicability::HasPlaceholders, app);
}

#[test]
fn test_snippet_block_realigns_to_target() {
    let sm = one_file("fn f() {\n    if x {\n        y;\n    }\n}");
    // the `if` block's braces sit at bytes 18..36
    let braces = sp(18, 36, ROOT_CONTEXT);
    let out = snippet_block(&sm, braces, b"..", None);
    assert_eq!("{\n    y;\n}", String::from_utf8(out).unwrap());
    // aligned relative to the `if` keyword's line instead
    let if_kw = sp(13, 15, ROOT_CONTEXT);
    let out = snippet_block(&sm, braces, b"..", Some(if_kw));
    assert_eq!("{\n        y;\n    }", String::from_utf8(out).unwrap());
}

#[test]
fn test_expr_block_wraps_non_blocks() {
    let sm = one_file("x + 1");
    let tree = ContextTree { entries: vec![] };
    let node = expr(sp(0, 5, ROOT_CONTEXT), ExprKind::OtherExpr);
    let out = expr_block(&sm, &tree, &node, None, b"..", None);
    assert_eq!(b"{ x + 1 }".to_vec(), out);
}

#[test]
fn test_expr_block_keeps_blocks_and_appends() {
    let sm = one_file("{ y() }");
    let tree = ContextTree { entries: vec![] };
    let node = expr(sp(0, 7, ROOT_CONTEXT), ExprKind::BlockExpr {
        block: Block { span: sp(0, 7, ROOT_CONTEXT), stmts: vec![], is_unsafe: false },
        label: None,
    });
    let out = expr_block(&sm, &tree, &node, Some(b" // tail".to_vec()), b"..", None);
    assert_eq!(b"{ y() } // tail".to_vec(), out);
}

#[test]
fn test_expr_block_renders_expansion_via_call_site() {
    // the node's own text is expansion output; its block form quotes the
    // call written by the user instead
    let sm = SourceMap {
        files: vec![
            SourceBuffer { start_pos: 0, end_pos: 10, src: Some(b"f(m!(42));".to_vec()) },
            SourceBuffer { start_pos: 10, end_pos: 14, src: Some(b"g;42".to_vec()) },
        ],
    };
    let tree = ContextTree {
        entries: vec![srclint::hygiene::ContextData { caller: sp(2, 8, ROOT_CONTEXT) }],
    };
    let node = expr(sp(10, 14, 1), ExprKind::OtherExpr);
    let out = expr_block(&sm, &tree, &node, None, b"..", None);
    assert_eq!(b"{ m!(42) }".to_vec(), out);
}
