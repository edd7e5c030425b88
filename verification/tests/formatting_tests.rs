use srclint::ast::{Arm, BinOp, BinOpKind, Block, Expr, ExprKind, LitKind, IntSuffix,
    PathSegment, QPath, Stmt, StmtKind, TyTag, UnOp};
use srclint::formatting::{check_assign, check_block, check_else, check_expr,
    check_missing_comma, check_missing_else, check_un_op};
use srclint::hygiene::ContextTree;
use srclint::needless_continue::check_needless_continue;
use srclint::overflow::check_overflow_conditional;
use srclint::source_map::{Applicability, SourceBuffer, SourceMap};
use srclint::span::{Span, ROOT_CONTEXT};

fn sp(lo: usize, hi: usize, ctxt: usize) -> Span {
    Span { lo, hi, ctxt }
}

fn one_file(text: &str) -> SourceMap {
    SourceMap {
        files: vec![SourceBuffer {
            start_pos: 0,
            end_pos: text.len(),
            src: Some(text.as_bytes().to_vec()),
        }],
    }
}

fn expr(span: Span, kind: ExprKind) -> Expr {
    Expr { span, kind, ty: TyTag::Unknown }
}

fn var(name: &str, span: Span, ty: TyTag) -> Expr {
    Expr {
        span,
        kind: ExprKind::Path(QPath::Resolved {
            has_self_ty: false,
            segments: vec![PathSegment { name: name.as_bytes().to_vec(), has_args: false }],
        }),
        ty,
    }
}

#[test]
fn test_suspicious_assignment_typo_is_flagged() {
    // `x =- 35` reads as a compound assignment typed backwards
    let sm = one_file("x =- 35;");
    let lhs = var("x", sp(0, 1, ROOT_CONTEXT), TyTag::Unknown);
    let operand = expr(sp(5, 7, ROOT_CONTEXT), ExprKind::Lit(LitKind::Int {
        suffix: IntSuffix::OtherOrNone,
    }));
    let rhs = expr(sp(3, 7, ROOT_CONTEXT), ExprKind::Unary(UnOp::Neg, Box::new(operand)));
    let assign = expr(
        sp(0, 7, ROOT_CONTEXT),
        ExprKind::Assign(Box::new(lhs), Box::new(rhs), sp(2, 3, ROOT_CONTEXT)),
    );
    let finding = check_assign(&sm, &assign).unwrap();
    assert_eq!(sp(2, 4, ROOT_CONTEXT), finding.lint_span);
    assert_eq!(b"-=".to_vec(), finding.reverse_sugg);
    assert_eq!(b"= -".to_vec(), finding.separate_sugg);
    assert_eq!(sp(2, 5, ROOT_CONTEXT), finding.separate_span);
}

#[test]
fn test_ordinary_assignment_is_not_flagged() {
    // `x = -35` has its space on the right side of the `=`
    let sm = one_file("x = -35;");
    let lhs = var("x", sp(0, 1, ROOT_CONTEXT), TyTag::Unknown);
    let operand = expr(sp(5, 7, ROOT_CONTEXT), ExprKind::Lit(LitKind::Int {
        suffix: IntSuffix::OtherOrNone,
    }));
    let rhs = expr(sp(4, 7, ROOT_CONTEXT), ExprKind::Unary(UnOp::Neg, Box::new(operand)));
    let assign = expr(
        sp(0, 7, ROOT_CONTEXT),
        ExprKind::Assign(Box::new(lhs), Box::new(rhs), sp(2, 3, ROOT_CONTEXT)),
    );
    assert!(check_assign(&sm, &assign).is_none());
}

#[test]
fn test_glued_unary_operator_is_flagged() {
    // `a &&! b` makes `&&!` read as one operator
    let sm = one_file("if a &&! b {}");
    let a = var("a", sp(3, 4, ROOT_CONTEXT), TyTag::Unknown);
    let b = var("b", sp(9, 10, ROOT_CONTEXT), TyTag::Unknown);
    let not_b = expr(sp(7, 10, ROOT_CONTEXT), ExprKind::Unary(UnOp::Not, Box::new(b)));
    let bin = expr(
        sp(3, 10, ROOT_CONTEXT),
        ExprKind::Binary(
            BinOp { node: BinOpKind::And, span: sp(5, 7, ROOT_CONTEXT) },
            Box::new(a),
            Box::new(not_b),
        ),
    );
    let finding = check_un_op(&sm, &bin).unwrap();
    assert_eq!(sp(5, 8, ROOT_CONTEXT), finding.lint_span);
    assert_eq!(b"&& !".to_vec(), finding.sugg);
    assert_eq!(Applicability::MachineApplicable, finding.app);
}

#[test]
fn test_spaced_unary_operator_is_not_flagged() {
    let sm = one_file("if a && !b {}");
    let a = var("a", sp(3, 4, ROOT_CONTEXT), TyTag::Unknown);
    let b = var("b", sp(9, 10, ROOT_CONTEXT), TyTag::Unknown);
    let not_b = expr(sp(8, 10, ROOT_CONTEXT), ExprKind::Unary(UnOp::Not, Box::new(b)));
    let bin = expr(
        sp(3, 10, ROOT_CONTEXT),
        ExprKind::Binary(
            BinOp { node: BinOpKind::And, span: sp(5, 7, ROOT_CONTEXT) },
            Box::new(a),
            Box::new(not_b),
        ),
    );
    assert!(check_un_op(&sm, &bin).is_none());
}

fn if_with_else(text: &str, then_span: Span, else_span: Span, else_is_block: bool) -> (SourceMap, Expr) {
    let sm = one_file(text);
    let cond = Box::new(expr(sp(3, 4, ROOT_CONTEXT), ExprKind::OtherExpr));
    let then = Block { span: then_span, stmts: vec![], is_unsafe: false };
    let els = if else_is_block {
        expr(else_span, ExprKind::BlockExpr {
            block: Block { span: else_span, stmts: vec![], is_unsafe: false },
            label: None,
        })
    } else {
        let inner_then = Block { span: else_span, stmts: vec![], is_unsafe: false };
        let inner_cond = Box::new(expr(else_span, ExprKind::OtherExpr));
        expr(else_span, ExprKind::If(inner_cond, inner_then, None))
    };
    let whole = expr(
        sp(0, else_span.hi, ROOT_CONTEXT),
        ExprKind::If(cond, then, Some(Box::new(els))),
    );
    (sm, whole)
}

#[test]
fn test_else_behind_blank_line_is_flagged() {
    // a blank line hides the `else`
    let text = "if a {}\n\nelse {}";
    let (sm, whole) = if_with_else(text, sp(5, 7, ROOT_CONTEXT), sp(14, 16, ROOT_CONTEXT), true);
    let finding = check_else(&sm, &whole).unwrap();
    assert_eq!(sp(7, 14, ROOT_CONTEXT), finding.lint_span);
    assert!(finding.else_is_block);
}

#[test]
fn test_else_on_same_line_is_not_flagged() {
    let text = "if a {} else {}";
    let (sm, whole) = if_with_else(text, sp(5, 7, ROOT_CONTEXT), sp(13, 15, ROOT_CONTEXT), true);
    assert!(check_else(&sm, &whole).is_none());
}

#[test]
fn test_else_followed_by_plain_line_break_is_not_flagged() {
    // one newline between the block and `else` is ordinary formatting
    let text = "if a {}\nelse {}";
    let (sm, whole) = if_with_else(text, sp(5, 7, ROOT_CONTEXT), sp(13, 15, ROOT_CONTEXT), true);
    assert!(check_else(&sm, &whole).is_none());
}

#[test]
fn test_else_with_line_break_before_its_block_is_flagged() {
    // `else` on the block's line, body pushed to the next line
    let text = "if a {} else\n{}";
    let (sm, whole) = if_with_else(text, sp(5, 7, ROOT_CONTEXT), sp(13, 15, ROOT_CONTEXT), true);
    let finding = check_else(&sm, &whole).unwrap();
    assert_eq!(sp(7, 13, ROOT_CONTEXT), finding.lint_span);
}

#[test]
fn test_else_if_split_over_lines_is_flagged() {
    // `else` and its `if` on separate lines
    let text = "if a {} else\nif b {}";
    let (sm, whole) = if_with_else(text, sp(5, 7, ROOT_CONTEXT), sp(13, 20, ROOT_CONTEXT), false);
    let finding = check_else(&sm, &whole).unwrap();
    assert!(!finding.else_is_block);
}

#[test]
fn test_missing_else_on_one_line_is_flagged() {
    // `if cond {A} {B}` with zero intervening newlines reads as a lost `else`
    let text = "if c {a}  {b}";
    let sm = one_file(text);
    let first = {
        let cond = Box::new(expr(sp(3, 4, ROOT_CONTEXT), ExprKind::OtherExpr));
        let then = Block { span: sp(5, 8, ROOT_CONTEXT), stmts: vec![], is_unsafe: false };
        expr(sp(0, 8, ROOT_CONTEXT), ExprKind::If(cond, then, None))
    };
    let second = expr(sp(10, 13, ROOT_CONTEXT), ExprKind::BlockExpr {
        block: Block { span: sp(10, 13, ROOT_CONTEXT), stmts: vec![], is_unsafe: false },
        label: None,
    });
    let finding = check_missing_else(&sm, ROOT_CONTEXT, &first, &second).unwrap();
    assert_eq!(sp(8, 10, ROOT_CONTEXT), finding.lint_span);
    assert_eq!(b" else ".to_vec(), finding.else_sugg);
    assert_eq!(b"\n".to_vec(), finding.break_sugg);
}

#[test]
fn test_missing_else_separated_by_blank_line_is_not_flagged() {
    let text = "if c {a}\n\n{b}";
    let sm = one_file(text);
    let first = {
        let cond = Box::new(expr(sp(3, 4, ROOT_CONTEXT), ExprKind::OtherExpr));
        let then = Block { span: sp(5, 8, ROOT_CONTEXT), stmts: vec![], is_unsafe: false };
        expr(sp(0, 8, ROOT_CONTEXT), ExprKind::If(cond, then, None))
    };
    let second = expr(sp(10, 13, ROOT_CONTEXT), ExprKind::BlockExpr {
        block: Block { span: sp(10, 13, ROOT_CONTEXT), stmts: vec![], is_unsafe: false },
        label: None,
    });
    assert!(check_missing_else(&sm, ROOT_CONTEXT, &first, &second).is_none());
}

#[test]
fn test_check_block_reports_adjacent_statement_pair() {
    let text = "if c {a}  {b}";
    let sm = one_file(text);
    let first = {
        let cond = Box::new(expr(sp(3, 4, ROOT_CONTEXT), ExprKind::OtherExpr));
        let then = Block { span: sp(5, 8, ROOT_CONTEXT), stmts: vec![], is_unsafe: false };
        expr(sp(0, 8, ROOT_CONTEXT), ExprKind::If(cond, then, None))
    };
    let second = expr(sp(10, 13, ROOT_CONTEXT), ExprKind::BlockExpr {
        block: Block { span: sp(10, 13, ROOT_CONTEXT), stmts: vec![], is_unsafe: false },
        label: None,
    });
    let block = Block {
        span: sp(0, 13, ROOT_CONTEXT),
        stmts: vec![
            Stmt { span: sp(0, 8, ROOT_CONTEXT), kind: StmtKind::Expr(Box::new(first)) },
            Stmt { span: sp(10, 13, ROOT_CONTEXT), kind: StmtKind::Semi(Box::new(second)) },
        ],
        is_unsafe: false,
    };
    let findings = check_block(&sm, &block);
    assert_eq!(1, findings.len());
    assert_eq!(sp(8, 10, ROOT_CONTEXT), findings[0].lint_span);
}

#[test]
fn test_missing_comma_in_array_is_flagged() {
    // `-1, -2, -3\n    -4` parses the line break as a subtraction
    let text = "[-1, -2, -3\n    -4, -5]";
    let sm = one_file(text);
    let tree = ContextTree { entries: vec![] };
    let minus3 = expr(sp(9, 11, ROOT_CONTEXT), ExprKind::Lit(LitKind::Int {
        suffix: IntSuffix::OtherOrNone,
    }));
    let four = expr(sp(17, 18, ROOT_CONTEXT), ExprKind::Lit(LitKind::Int {
        suffix: IntSuffix::OtherOrNone,
    }));
    let element = expr(
        sp(9, 18, ROOT_CONTEXT),
        ExprKind::Binary(
            BinOp { node: BinOpKind::Sub, span: sp(16, 17, ROOT_CONTEXT) },
            Box::new(minus3),
            Box::new(four),
        ),
    );
    let findings = check_missing_comma(&sm, &tree, ROOT_CONTEXT, &element);
    assert_eq!(1, findings.len());
    assert_eq!(sp(16, 17, ROOT_CONTEXT), findings[0].lint_span);
    assert_eq!(sp(11, 11, ROOT_CONTEXT), findings[0].comma_span);
    assert_eq!(sp(17, 17, ROOT_CONTEXT), findings[0].space_span);
}

#[test]
fn test_spaced_subtraction_is_not_flagged_as_missing_comma() {
    let text = "[-3 - 4]";
    let sm = one_file(text);
    let tree = ContextTree { entries: vec![] };
    let minus3 = expr(sp(1, 3, ROOT_CONTEXT), ExprKind::Lit(LitKind::Int {
        suffix: IntSuffix::OtherOrNone,
    }));
    let four = expr(sp(6, 7, ROOT_CONTEXT), ExprKind::Lit(LitKind::Int {
        suffix: IntSuffix::OtherOrNone,
    }));
    let element = expr(
        sp(1, 7, ROOT_CONTEXT),
        ExprKind::Binary(
            BinOp { node: BinOpKind::Sub, span: sp(4, 5, ROOT_CONTEXT) },
            Box::new(minus3),
            Box::new(four),
        ),
    );
    assert!(check_missing_comma(&sm, &tree, ROOT_CONTEXT, &element).is_empty());
}

#[test]
fn test_overflow_check_conditional_add_form() {
    // `a + b < a` on unsigned operands
    let uint = TyTag::Uint { id: 7 };
    let a1 = var("a", sp(0, 1, ROOT_CONTEXT), uint);
    let b = var("b", sp(4, 5, ROOT_CONTEXT), uint);
    let sum = Expr {
        span: sp(0, 5, ROOT_CONTEXT),
        kind: ExprKind::Binary(
            BinOp { node: BinOpKind::Add, span: sp(2, 3, ROOT_CONTEXT) },
            Box::new(a1),
            Box::new(b),
        ),
        ty: uint,
    };
    let a2 = var("a", sp(8, 9, ROOT_CONTEXT), uint);
    let cmp = expr(
        sp(0, 9, ROOT_CONTEXT),
        ExprKind::Binary(
            BinOp { node: BinOpKind::Lt, span: sp(6, 7, ROOT_CONTEXT) },
            Box::new(sum),
            Box::new(a2),
        ),
    );
    assert!(check_overflow_conditional(&cmp));
}

#[test]
fn test_overflow_check_conditional_sub_form() {
    // `a < a - b`
    let uint = TyTag::Uint { id: 7 };
    let a1 = var("a", sp(0, 1, ROOT_CONTEXT), uint);
    let a2 = var("a", sp(4, 5, ROOT_CONTEXT), uint);
    let b = var("b", sp(8, 9, ROOT_CONTEXT), uint);
    let diff = Expr {
        span: sp(4, 9, ROOT_CONTEXT),
        kind: ExprKind::Binary(
            BinOp { node: BinOpKind::Sub, span: sp(6, 7, ROOT_CONTEXT) },
            Box::new(a2),
            Box::new(b),
        ),
        ty: uint,
    };
    let cmp = expr(
        sp(0, 9, ROOT_CONTEXT),
        ExprKind::Binary(
            BinOp { node: BinOpKind::Lt, span: sp(2, 3, ROOT_CONTEXT) },
            Box::new(a1),
            Box::new(diff),
        ),
    );
    assert!(check_overflow_conditional(&cmp));
}

#[test]
fn test_overflow_check_needs_unsigned_and_same_operand() {
    let signed = TyTag::Other { id: 3 };
    let a1 = var("a", sp(0, 1, ROOT_CONTEXT), signed);
    let b = var("b", sp(4, 5, ROOT_CONTEXT), signed);
    let sum = Expr {
        span: sp(0, 5, ROOT_CONTEXT),
        kind: ExprKind::Binary(
            BinOp { node: BinOpKind::Add, span: sp(2, 3, ROOT_CONTEXT) },
            Box::new(a1),
            Box::new(b),
        ),
        ty: signed,
    };
    let a2 = var("a", sp(8, 9, ROOT_CONTEXT), signed);
    let cmp = expr(
        sp(0, 9, ROOT_CONTEXT),
        ExprKind::Binary(
            BinOp { node: BinOpKind::Lt, span: sp(6, 7, ROOT_CONTEXT) },
            Box::new(sum),
            Box::new(a2),
        ),
    );
    // signed operands: not the C overflow idiom this check is after
    assert!(!check_overflow_conditional(&cmp));

    // unsigned but comparing against an unrelated variable
    let uint = TyTag::Uint { id: 7 };
    let a1 = var("a", sp(0, 1, ROOT_CONTEXT), uint);
    let b = var("b", sp(4, 5, ROOT_CONTEXT), uint);
    let sum = Expr {
        span: sp(0, 5, ROOT_CONTEXT),
        kind: ExprKind::Binary(
            BinOp { node: BinOpKind::Add, span: sp(2, 3, ROOT_CONTEXT) },
            Box::new(a1),
            Box::new(b),
        ),
        ty: uint,
    };
    let c = var("c", sp(8, 9, ROOT_CONTEXT), uint);
    let cmp = expr(
        sp(0, 9, ROOT_CONTEXT),
        ExprKind::Binary(
            BinOp { node: BinOpKind::Lt, span: sp(6, 7, ROOT_CONTEXT) },
            Box::new(sum),
            Box::new(c),
        ),
    );
    assert!(!check_overflow_conditional(&cmp));
}

#[test]
fn test_check_expr_dispatches_by_shape() {
    let tree = ContextTree { entries: vec![] };
    // the assignment typo through the dispatcher
    let sm = one_file("x =- 35;");
    let lhs = var("x", sp(0, 1, ROOT_CONTEXT), TyTag::Unknown);
    let operand = expr(sp(5, 7, ROOT_CONTEXT), ExprKind::Lit(LitKind::Int {
        suffix: IntSuffix::OtherOrNone,
    }));
    let rhs = expr(sp(3, 7, ROOT_CONTEXT), ExprKind::Unary(UnOp::Neg, Box::new(operand)));
    let assign = expr(
        sp(0, 7, ROOT_CONTEXT),
        ExprKind::Assign(Box::new(lhs), Box::new(rhs), sp(2, 3, ROOT_CONTEXT)),
    );
    let report = check_expr(&sm, &tree, &assign);
    assert!(report.assign.is_some());
    assert!(report.un_op.is_none());
    assert!(report.else_finding.is_none());
    assert!(report.commas.is_empty());

    // a comma search over an array's elements
    let sm = one_file("[-3\n    -4]");
    let minus3 = expr(sp(1, 3, ROOT_CONTEXT), ExprKind::Lit(LitKind::Int {
        suffix: IntSuffix::OtherOrNone,
    }));
    let four = expr(sp(9, 10, ROOT_CONTEXT), ExprKind::Lit(LitKind::Int {
        suffix: IntSuffix::OtherOrNone,
    }));
    let element = expr(
        sp(1, 10, ROOT_CONTEXT),
        ExprKind::Binary(
            BinOp { node: BinOpKind::Sub, span: sp(8, 9, ROOT_CONTEXT) },
            Box::new(minus3),
            Box::new(four),
        ),
    );
    let array = expr(sp(0, 11, ROOT_CONTEXT), ExprKind::Array(vec![element]));
    let report = check_expr(&sm, &tree, &array);
    assert_eq!(1, report.commas.len());
    assert_eq!(sp(8, 9, ROOT_CONTEXT), report.commas[0].lint_span);
}

#[test]
fn test_else_scan_abstains_on_unexpected_token() {
    // a stray token between the block and the `else` means the shape is
    // not trusted, whatever the line count says
    let text = "if a {}\n\n; else {}";
    let (sm, whole) = if_with_else(text, sp(5, 7, ROOT_CONTEXT), sp(16, 18, ROOT_CONTEXT), true);
    assert!(check_else(&sm, &whole).is_none());
}

#[test]
fn test_needless_continue_at_end_of_loop() {
    let text = "while x { continue; }";
    let sm = one_file(text);
    let cont = expr(sp(10, 18, ROOT_CONTEXT), ExprKind::Continue { label: None });
    let body = Block {
        span: sp(8, 21, ROOT_CONTEXT),
        stmts: vec![Stmt { span: sp(10, 19, ROOT_CONTEXT), kind: StmtKind::Semi(Box::new(cont)) }],
        is_unsafe: false,
    };
    let lp = expr(sp(0, 21, ROOT_CONTEXT), ExprKind::Loop {
        body,
        label: None,
        source: srclint::ast::LoopSource::While,
    });
    let findings = check_needless_continue(&sm, &lp);
    assert_eq!(1, findings.len());
    assert_eq!(sp(10, 18, ROOT_CONTEXT), findings[0].lint_span);
    // the deletion absorbs the leading blank and the trailing semicolon
    assert_eq!(sp(9, 19, ROOT_CONTEXT), findings[0].removal_span);
    assert!(!findings[0].needs_block_stub);
    assert_eq!(Applicability::MachineApplicable, findings[0].app);
}

#[test]
fn test_labelled_continue_of_outer_loop_is_kept() {
    let text = "'o: while x { continue 'o; }";
    let sm = one_file(text);
    let cont = expr(sp(14, 26, ROOT_CONTEXT), ExprKind::Continue {
        label: Some(b"'o".to_vec()),
    });
    let body = Block {
        span: sp(12, 28, ROOT_CONTEXT),
        stmts: vec![Stmt { span: sp(14, 27, ROOT_CONTEXT), kind: StmtKind::Semi(Box::new(cont)) }],
        is_unsafe: false,
    };
    // the loop the statement sits in carries no label, so the jump targets
    // some outer loop and must stay
    let lp = expr(sp(4, 28, ROOT_CONTEXT), ExprKind::Loop {
        body,
        label: None,
        source: srclint::ast::LoopSource::While,
    });
    assert!(check_needless_continue(&sm, &lp).is_empty());
}

#[test]
fn test_continue_in_match_arm_needs_block_stub() {
    let text = "loop { match x { _ => continue, } }";
    let sm = one_file(text);
    let cont = expr(sp(22, 30, ROOT_CONTEXT), ExprKind::Continue { label: None });
    let arm = Arm { span: sp(17, 31, ROOT_CONTEXT), body: Some(Box::new(cont)) };
    let scrut = expr(sp(13, 14, ROOT_CONTEXT), ExprKind::OtherExpr);
    let mat = expr(sp(7, 33, ROOT_CONTEXT), ExprKind::Match {
        scrutinee: Box::new(scrut),
        arms: vec![arm],
        source: srclint::ast::MatchSource::Normal,
    });
    let body = Block {
        span: sp(5, 35, ROOT_CONTEXT),
        stmts: vec![Stmt { span: sp(7, 33, ROOT_CONTEXT), kind: StmtKind::Expr(Box::new(mat)) }],
        is_unsafe: false,
    };
    let lp = expr(sp(0, 35, ROOT_CONTEXT), ExprKind::Loop {
        body,
        label: None,
        source: srclint::ast::LoopSource::Loop,
    });
    let findings = check_needless_continue(&sm, &lp);
    assert_eq!(1, findings.len());
    assert!(findings[0].needs_block_stub);
}
