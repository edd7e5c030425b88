use srclint::ast::{
    Block, Expr, ExprKind, IntSuffix, LitKind, PathSegment, QPath, StrStyle, TyTag,
};
use srclint::provenance::{expr_search_pat, is_expr_from_proc_macro, is_span_match, Pat};
use srclint::source_map::{SourceBuffer, SourceMap};
use srclint::span::{Span, ROOT_CONTEXT};

fn sp(lo: usize, hi: usize, ctxt: usize) -> Span {
    Span { lo, hi, ctxt }
}

fn one_file(text: &str) -> SourceMap {
    SourceMap {
        files: vec![SourceBuffer {
            start_pos: 0,
            end_pos: text.len(),
            src: Some(text.as_bytes().to_vec()),
        }],
    }
}

fn expr(span: Span, kind: ExprKind) -> Expr {
    Expr { span, kind, ty: TyTag::Unknown }
}

fn if_shape(span: Span) -> Expr {
    let cond = Box::new(expr(span, ExprKind::OtherExpr));
    let then = Block { span, stmts: vec![], is_unsafe: false };
    expr(span, ExprKind::If(cond, then, None))
}

fn pat_text(p: &Pat) -> Option<String> {
    match p {
        Pat::Text(t) => Some(String::from_utf8(t.clone()).unwrap()),
        Pat::Num => None,
    }
}

#[test]
fn test_written_if_is_not_flagged_as_generated() {
    let sm = one_file("if x { y() }");
    let node = if_shape(sp(0, 12, ROOT_CONTEXT));
    assert!(!is_expr_from_proc_macro(&sm, &node));
}

#[test]
fn test_expansion_shaped_text_is_flagged_as_generated() {
    // the span of an expansion-produced node covers the call `m!()`, whose
    // text shows none of the shape an `if` must show
    let sm = one_file("m!()");
    let node = if_shape(sp(0, 4, 1));
    assert!(is_expr_from_proc_macro(&sm, &node));
}

#[test]
fn test_zero_length_span_abstains_as_generated() {
    let sm = one_file("if x { y() }");
    let node = if_shape(sp(3, 3, ROOT_CONTEXT));
    assert!(is_expr_from_proc_macro(&sm, &node));
}

#[test]
fn test_unresolvable_span_abstains_as_generated() {
    let sm = one_file("if x { y() }");
    let node = if_shape(sp(0, 500, ROOT_CONTEXT));
    assert!(is_expr_from_proc_macro(&sm, &node));
}

#[test]
fn test_wrapping_parens_and_trailing_commas_are_trimmed() {
    // expansions routinely wrap their output; the trim sees through it
    let sm = one_file("((if x { y() }),)  ");
    let node = if_shape(sp(0, 19, ROOT_CONTEXT));
    assert!(!is_expr_from_proc_macro(&sm, &node));
}

#[test]
fn test_literal_patterns() {
    let sm = one_file("\"hi\" 42usize 0x1f true 'c'");
    let str_lit = expr(
        sp(0, 4, ROOT_CONTEXT),
        ExprKind::Lit(LitKind::Str { style: StrStyle::Cooked }),
    );
    assert!(!is_expr_from_proc_macro(&sm, &str_lit));
    let usize_lit = expr(
        sp(5, 12, ROOT_CONTEXT),
        ExprKind::Lit(LitKind::Int { suffix: IntSuffix::Usize }),
    );
    assert!(!is_expr_from_proc_macro(&sm, &usize_lit));
    // a plain integer must start with a digit and end with a hex digit
    let hex_lit = expr(
        sp(13, 17, ROOT_CONTEXT),
        ExprKind::Lit(LitKind::Int { suffix: IntSuffix::OtherOrNone }),
    );
    assert!(!is_expr_from_proc_macro(&sm, &hex_lit));
    let bool_lit = expr(sp(18, 22, ROOT_CONTEXT), ExprKind::Lit(LitKind::Bool { value: true }));
    assert!(!is_expr_from_proc_macro(&sm, &bool_lit));
    // the string literal's span placed over `true` does not read as a string
    let misplaced = expr(
        sp(18, 22, ROOT_CONTEXT),
        ExprKind::Lit(LitKind::Str { style: StrStyle::Cooked }),
    );
    assert!(is_expr_from_proc_macro(&sm, &misplaced));
}

#[test]
fn test_path_patterns() {
    let seg = |name: &str, has_args: bool| PathSegment { name: name.as_bytes().to_vec(), has_args };
    let path = QPath::Resolved {
        has_self_ty: false,
        segments: vec![seg("std", false), seg("mem", false), seg("swap", false)],
    };
    let sm = one_file("std::mem::swap(a, b)");
    let node = expr(sp(0, 14, ROOT_CONTEXT), ExprKind::Path(path));
    assert!(!is_expr_from_proc_macro(&sm, &node));
}

#[test]
fn test_binary_node_derives_patterns_from_operands() {
    let a = expr(
        sp(0, 1, ROOT_CONTEXT),
        ExprKind::Path(QPath::Resolved {
            has_self_ty: false,
            segments: vec![PathSegment { name: b"a".to_vec(), has_args: false }],
        }),
    );
    let b = expr(
        sp(4, 5, ROOT_CONTEXT),
        ExprKind::Path(QPath::Resolved {
            has_self_ty: false,
            segments: vec![PathSegment { name: b"b".to_vec(), has_args: false }],
        }),
    );
    let bin = expr(
        sp(0, 5, ROOT_CONTEXT),
        ExprKind::Binary(
            srclint::ast::BinOp { node: srclint::ast::BinOpKind::Add, span: sp(2, 3, ROOT_CONTEXT) },
            Box::new(a),
            Box::new(b),
        ),
    );
    let (start, end) = expr_search_pat(&bin);
    assert_eq!(Some("a".to_string()), pat_text(&start));
    assert_eq!(Some("b".to_string()), pat_text(&end));
    let sm = one_file("a + b");
    assert!(!is_expr_from_proc_macro(&sm, &bin));
}

#[test]
fn test_is_span_match() {
    let sm = one_file("match x { _ => y } more");
    assert!(is_span_match(&sm, sp(0, 18, ROOT_CONTEXT)));
    assert!(!is_span_match(&sm, sp(19, 23, ROOT_CONTEXT)));
}
