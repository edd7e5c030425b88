use srclint::hygiene::{ContextData, ContextTree};
use srclint::LintCategory;
use srclint::source_map::{Applicability, SourceBuffer, SourceMap};
use srclint::span::{Span, ROOT_CONTEXT};

fn sp(lo: usize, hi: usize, ctxt: usize) -> Span {
    Span { lo, hi, ctxt }
}

fn one_file(text: &str) -> SourceMap {
    SourceMap {
        files: vec![SourceBuffer {
            start_pos: 0,
            end_pos: text.len(),
            src: Some(text.as_bytes().to_vec()),
        }],
    }
}

#[test]
fn test_walk_to_context_identity_on_root() {
    let tree = ContextTree { entries: vec![] };
    let s = sp(3, 9, ROOT_CONTEXT);
    assert_eq!(Some(s), tree.walk_span_to_context(s, ROOT_CONTEXT));
}

#[test]
fn test_walk_to_context_climbs_expansion_chain() {
    // context 1 was produced by a call written at bytes 10..14 of the root,
    // context 2 by a call written inside context 1
    let tree = ContextTree {
        entries: vec![
            ContextData { caller: sp(10, 14, ROOT_CONTEXT) },
            ContextData { caller: sp(2, 6, 1) },
        ],
    };
    let inner = sp(100, 104, 2);
    assert_eq!(Some(sp(10, 14, ROOT_CONTEXT)), tree.walk_span_to_context(inner, ROOT_CONTEXT));
    assert_eq!(Some(sp(2, 6, 1)), tree.walk_span_to_context(inner, 1));
    // walking towards a context that is not on the chain fails
    assert_eq!(None, tree.walk_span_to_context(sp(0, 1, 1), 2));
}

#[test]
fn test_snippet_opt_exact_and_absent() {
    let sm = one_file("let x = 1;");
    assert_eq!(Some(b"x = 1".to_vec()), sm.snippet_opt(sp(4, 9, ROOT_CONTEXT)));
    // out of every buffer
    assert_eq!(None, sm.snippet_opt(sp(4, 99, ROOT_CONTEXT)));
    // buffer without loaded text
    let dark = SourceMap {
        files: vec![SourceBuffer { start_pos: 0, end_pos: 50, src: None }],
    };
    assert_eq!(None, dark.snippet_opt(sp(4, 9, ROOT_CONTEXT)));
}

#[test]
fn test_zero_length_span_reconstructs_empty_text() {
    let sm = one_file("let x = 1;");
    assert_eq!(Some(Vec::new()), sm.snippet_opt(sp(4, 4, ROOT_CONTEXT)));
}

#[test]
fn test_snippet_fallback_to_default() {
    let sm = one_file("abc");
    assert_eq!(b"abc".to_vec(), sm.snippet(sp(0, 3, ROOT_CONTEXT), b".."));
    assert_eq!(b"..".to_vec(), sm.snippet(sp(0, 9, ROOT_CONTEXT), b".."));
}

#[test]
fn test_snippet_with_applicability_downgrades() {
    let sm = one_file("abcdef");
    // expansion span: confidence drops to MaybeIncorrect
    let mut app = Applicability::MachineApplicable;
    let text = sm.snippet_with_applicability(sp(1, 3, 7), b"..", &mut app);
    assert_eq!(b"bc".to_vec(), text);
    assert_eq!(Applicability::MaybeIncorrect, app);
    // missing text: MachineApplicable drops to HasPlaceholders
    let mut app = Applicability::MachineApplicable;
    let text = sm.snippet_with_applicability(sp(0, 99, ROOT_CONTEXT), b"..", &mut app);
    assert_eq!(b"..".to_vec(), text);
    assert_eq!(Applicability::HasPlaceholders, app);
    // Unspecified is never changed
    let mut app = Applicability::Unspecified;
    sm.snippet_with_applicability(sp(1, 3, 7), b"..", &mut app);
    assert_eq!(Applicability::Unspecified, app);
}

#[test]
fn test_snippet_with_context_takes_the_call_site() {
    // root text holds the call `m!(0)` at 4..9; the expansion output lives
    // in a separate synthetic buffer tagged with context 1
    let sm = SourceMap {
        files: vec![
            SourceBuffer { start_pos: 0, end_pos: 12, src: Some(b"g(f(m!(0)));".to_vec()) },
            SourceBuffer { start_pos: 12, end_pos: 17, src: Some(b"f(0);".to_vec()) },
        ],
    };
    let tree = ContextTree { entries: vec![ContextData { caller: sp(4, 9, ROOT_CONTEXT) }] };
    let expanded = sp(12, 16, 1);
    let mut app = Applicability::MachineApplicable;
    let (text, is_macro_call) =
        sm.snippet_with_context(&tree, expanded, ROOT_CONTEXT, b"..", &mut app);
    assert_eq!(b"m!(0)".to_vec(), text);
    assert!(is_macro_call);
    assert_eq!(Applicability::MachineApplicable, app);
}

#[test]
fn test_get_source_text_at_ctxt_refuses_diverging_argument() {
    let sm = one_file("g(m!(0));");
    let tree = ContextTree {
        entries: vec![
            ContextData { caller: sp(2, 7, ROOT_CONTEXT) },
            ContextData { caller: sp(0, 1, ROOT_CONTEXT) },
        ],
    };
    // a span in context 1 walks out to the call site
    assert_eq!(
        Some(b"m!(0)".to_vec()),
        sm.get_source_text_at_ctxt(&tree, sp(0, 3, 1), ROOT_CONTEXT)
    );
    // but towards a sibling context the walk fails
    assert_eq!(None, sm.get_source_text_at_ctxt(&tree, sp(0, 3, 1), 2));
}

#[test]
fn test_indent_of_and_snippet_indent() {
    let sm = one_file("fn f() {\n    let x = 1;\n\t\tdone\n   \n}");
    // `let` line: four spaces
    assert_eq!(Some(4), sm.indent_of(sp(13, 16, ROOT_CONTEXT)));
    assert_eq!(Some(b"    ".to_vec()), sm.snippet_indent(sp(13, 16, ROOT_CONTEXT)));
    // first line: none
    assert_eq!(Some(0), sm.indent_of(sp(0, 2, ROOT_CONTEXT)));
    // tab-indented line
    assert_eq!(Some(b"\t\t".to_vec()), sm.snippet_indent(sp(26, 30, ROOT_CONTEXT)));
    // all-whitespace line has no indentation to report
    assert_eq!(None, sm.indent_of(sp(32, 33, ROOT_CONTEXT)));
    assert_eq!(None, sm.indent_of(sp(500, 501, ROOT_CONTEXT)));
}

#[test]
fn test_first_line_of_span_and_line_span() {
    let sm = one_file("fn f() {\n    let x = 1;\n}");
    // a span on `x` grows back to the first non-blank byte of its line
    let moved = sm.first_line_of_span(sp(17, 18, ROOT_CONTEXT));
    assert_eq!(sp(13, 18, ROOT_CONTEXT), moved);
    let line = sm.line_span(sp(17, 18, ROOT_CONTEXT)).unwrap();
    assert_eq!(sp(9, 23, ROOT_CONTEXT), line);
}

#[test]
fn test_is_present_in_source() {
    let sm = one_file("abc");
    assert!(sm.is_present_in_source(sp(0, 2, ROOT_CONTEXT)));
    // an empty snippet is an expansion artifact
    assert!(!sm.is_present_in_source(sp(1, 1, ROOT_CONTEXT)));
    // unresolvable spans are kept
    assert!(sm.is_present_in_source(sp(0, 99, ROOT_CONTEXT)));
}

#[test]
fn test_with_trailing_whitespace() {
    let sm = one_file("x =-   35;");
    assert_eq!(sp(2, 7, ROOT_CONTEXT), sm.with_trailing_whitespace(sp(2, 4, ROOT_CONTEXT)));
    // nothing trailing
    assert_eq!(sp(7, 9, ROOT_CONTEXT), sm.with_trailing_whitespace(sp(7, 9, ROOT_CONTEXT)));
}

#[test]
fn test_span_helpers() {
    let s = sp(3, 9, 2);
    assert!(s.from_expansion());
    assert!(!sp(3, 9, ROOT_CONTEXT).from_expansion());
    assert_eq!(sp(5, 9, 2), s.with_lo(5));
    assert_eq!(sp(3, 5, 2), s.with_hi(5));
    assert_eq!(sp(9, 9, 2), s.shrink_to_hi());
    assert_eq!(sp(3, 3, 2), s.shrink_to_lo());
    assert!(sp(4, 4, 0).is_empty());
    assert!(s.eq_ctxt(sp(0, 0, 2)));
    assert_eq!(sp(3, 20, 2), s.to(sp(15, 20, 0)));
}

#[test]
fn test_lint_category_is_all() {
    assert!(LintCategory::Correctness.is_all());
    assert!(LintCategory::Suspicious.is_all());
    assert!(LintCategory::Style.is_all());
    assert!(LintCategory::Complexity.is_all());
    assert!(LintCategory::Perf.is_all());
    assert!(!LintCategory::Pedantic.is_all());
    assert!(!LintCategory::Restriction.is_all());
    assert!(!LintCategory::Nursery.is_all());
    assert!(!LintCategory::Cargo.is_all());
}
