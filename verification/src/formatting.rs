//! Formatting-style checks over adjacent tokens.
//!
//! These checks decide whether the raw text around two neighbouring
//! constructs looks surprising to a human reader: a compound-assignment
//! typo such as `=-`, a binary and a unary operator glued together, an
//! `else` hidden behind blank lines or comments, a possibly missing comma
//! in an array, and a block that reads as though an `else` was forgotten.
//! Every check first makes sure the pieces share one expansion context —
//! textual adjacency across contexts means nothing — and abstains whenever
//! the underlying text cannot be read.

use vstd::prelude::*;

use crate::ast::{BinOpKind, Expr, ExprKind, UnOp};
use crate::scanner::is_whitespace_byte;
use crate::source_map::{Applicability, SourceMap};
use crate::span::{Span, ROOT_CONTEXT};

verus! {

/// The single byte a unary operator is written with.
pub open spec fn spec_un_op_byte(op: UnOp) -> u8 {
    match op {
        UnOp::Deref => 42,
        UnOp::Not => 33,
        UnOp::Neg => 45,
    }
}

fn un_op_byte(op: UnOp) -> (r: u8)
    ensures
        r == spec_un_op_byte(op),
{
    match op {
        UnOp::Deref => 42,
        UnOp::Not => 33,
        UnOp::Neg => 45,
    }
}

/// The bytes a binary operator is written with.
pub open spec fn spec_bin_op_bytes(k: BinOpKind) -> Seq<u8> {
    match k {
        BinOpKind::Add => seq![43u8],
        BinOpKind::Sub => seq![45u8],
        BinOpKind::Mul => seq![42u8],
        BinOpKind::Div => seq![47u8],
        BinOpKind::Rem => seq![37u8],
        BinOpKind::And => seq![38u8, 38u8],
        BinOpKind::Or => seq![124u8, 124u8],
        BinOpKind::BitXor => seq![94u8],
        BinOpKind::BitAnd => seq![38u8],
        BinOpKind::BitOr => seq![124u8],
        BinOpKind::Shl => seq![60u8, 60u8],
        BinOpKind::Shr => seq![62u8, 62u8],
        BinOpKind::Eq => seq![61u8, 61u8],
        BinOpKind::Lt => seq![60u8],
        BinOpKind::Le => seq![60u8, 61u8],
        BinOpKind::Ne => seq![33u8, 61u8],
        BinOpKind::Ge => seq![62u8, 61u8],
        BinOpKind::Gt => seq![62u8],
    }
}

fn bytes1(a: u8) -> (r: Vec<u8>)
    ensures
        r@ == seq![a],
{
    let v: Vec<u8> = vec![a];
    proof {
        assert(v@ =~= seq![a]);
    }
    v
}

fn bytes2(a: u8, b: u8) -> (r: Vec<u8>)
    ensures
        r@ == seq![a, b],
{
    let v: Vec<u8> = vec![a, b];
    proof {
        assert(v@ =~= seq![a, b]);
    }
    v
}

fn bytes3(a: u8, b: u8, c: u8) -> (r: Vec<u8>)
    ensures
        r@ == seq![a, b, c],
{
    let v: Vec<u8> = vec![a, b, c];
    proof {
        assert(v@ =~= seq![a, b, c]);
    }
    v
}

fn bin_op_bytes(k: BinOpKind) -> (r: Vec<u8>)
    ensures
        r@ == spec_bin_op_bytes(k),
{
    match k {
        BinOpKind::Add => bytes1(43),
        BinOpKind::Sub => bytes1(45),
        BinOpKind::Mul => bytes1(42),
        BinOpKind::Div => bytes1(47),
        BinOpKind::Rem => bytes1(37),
        BinOpKind::And => bytes2(38, 38),
        BinOpKind::Or => bytes2(124, 124),
        BinOpKind::BitXor => bytes1(94),
        BinOpKind::BitAnd => bytes1(38),
        BinOpKind::BitOr => bytes1(124),
        BinOpKind::Shl => bytes2(60, 60),
        BinOpKind::Shr => bytes2(62, 62),
        BinOpKind::Eq => bytes2(61, 61),
        BinOpKind::Lt => bytes1(60),
        BinOpKind::Le => bytes2(60, 61),
        BinOpKind::Ne => bytes2(33, 61),
        BinOpKind::Ge => bytes2(62, 61),
        BinOpKind::Gt => bytes1(62),
    }
}

/// What a flagged `=-`-style typo reports: the two-byte operator range,
/// the reversed form, and the separated form with the range it replaces.
pub struct AssignFinding {
    pub lint_span: Span,
    pub reverse_sugg: Vec<u8>,
    pub separate_sugg: Vec<u8>,
    pub separate_span: Span,
}

/// Whether the assignment reads as a compound-assignment typo: its value
/// is a unary operation, everything shares the assignment's context, and
/// the text from the `=` on reads as `=`, the unary operator, then
/// whitespace — so `a =- b` was probably meant as `a -= b` or `a = -b`.
pub open spec fn spec_assign_typo_fires(sm: SourceMap, assign: Expr) -> bool {
    match assign.kind {
        ExprKind::Assign(_, rhs, op_sp) => match rhs.kind {
            ExprKind::Unary(op, _) => {
                &&& rhs.span.ctxt == assign.span.ctxt
                &&& op_sp.ctxt == assign.span.ctxt
                &&& op_sp.lo <= assign.span.hi
                &&& match sm.spec_snippet(
                    Span { lo: op_sp.lo, hi: assign.span.hi, ctxt: assign.span.ctxt },
                ) {
                    Some(text) => text.len() >= 3 && text[0] == 61 && text[1]
                        == spec_un_op_byte(op) && is_whitespace_byte(text[2]),
                    None => false,
                }
            },
            _ => false,
        },
        _ => false,
    }
}

/// Check one assignment for the `=-`, `=*`, `=!` typo shape.
pub fn check_assign(sm: &SourceMap, assign: &Expr) -> (r: Option<AssignFinding>)
    requires
        sm.wf(),
        assign.span.wf(),
        match assign.kind {
            ExprKind::Assign(_, _, op_sp) => op_sp.wf(),
            _ => true,
        },
    ensures
        r is Some <==> spec_assign_typo_fires(*sm, *assign),
        match r {
            Some(f) => match assign.kind {
                ExprKind::Assign(_, rhs, op_sp) => {
                    &&& f.lint_span == (Span {
                        lo: op_sp.lo,
                        hi: (op_sp.lo + 2) as usize,
                        ctxt: assign.span.ctxt,
                    })
                    &&& f.reverse_sugg@ == seq![
                        spec_un_op_byte(rhs.kind->Unary_0),
                        61u8,
                    ]
                    &&& f.separate_sugg@ == seq![
                        61u8,
                        32u8,
                        spec_un_op_byte(rhs.kind->Unary_0),
                    ]
                    &&& f.separate_span == sm.spec_with_trailing_ws(f.lint_span)
                },
                _ => false,
            },
            None => true,
        },
{
    match &assign.kind {
        ExprKind::Assign(_, rhs, op_sp) => match &rhs.kind {
            ExprKind::Unary(op, _) => {
                if rhs.span.ctxt != assign.span.ctxt || op_sp.ctxt != assign.span.ctxt
                    || op_sp.lo > assign.span.hi {
                    return None;
                }
                let window = Span { lo: op_sp.lo, hi: assign.span.hi, ctxt: assign.span.ctxt };
                let ob = un_op_byte(*op);
                match sm.snippet_opt(window) {
                    Some(text) => {
                        if text.len() >= 3 && text[0] == 61 && text[1] == ob
                            && crate::source_map::whitespace_byte_at(text.as_slice(), 2) {
                            proof {
                                crate::source_map::lemma_snippet_len(*sm, window);
                            }
                            let lint_span = Span {
                                lo: op_sp.lo,
                                hi: op_sp.lo + 2,
                                ctxt: assign.span.ctxt,
                            };
                            let separate_span = sm.with_trailing_whitespace(lint_span);
                            Some(
                                AssignFinding {
                                    lint_span,
                                    reverse_sugg: bytes2(ob, 61),
                                    separate_sugg: bytes3(61, 32, ob),
                                    separate_span,
                                },
                            )
                        } else {
                            None
                        }
                    },
                    None => None,
                }
            },
            _ => None,
        },
        _ => None,
    }
}

/// What a flagged glued binary-and-unary operator reports.
pub struct UnOpFinding {
    pub lint_span: Span,
    pub sugg_span: Span,
    pub sugg: Vec<u8>,
    pub app: Applicability,
}

/// Whether the binary operation reads as a glued operator pair: its right
/// operand is a unary operation, contexts agree, and the text from the
/// binary operator on reads as the binary operator, the unary operator,
/// then whitespace — `a &&! b` looks like a single operator but is not.
pub open spec fn spec_un_op_fires(sm: SourceMap, bin_expr: Expr) -> bool {
    match bin_expr.kind {
        ExprKind::Binary(bin_op, _, rhs) => match rhs.kind {
            ExprKind::Unary(op, _) => {
                let bb = spec_bin_op_bytes(bin_op.node);
                &&& bin_op.span.ctxt == bin_expr.span.ctxt
                &&& rhs.span.ctxt == bin_expr.span.ctxt
                &&& bin_op.span.lo <= rhs.span.hi
                &&& match sm.spec_snippet(
                    Span { lo: bin_op.span.lo, hi: rhs.span.hi, ctxt: bin_expr.span.ctxt },
                ) {
                    Some(text) => {
                        &&& text.len() >= bb.len() + 2
                        &&& text.subrange(0, bb.len() as int) == bb
                        &&& text[bb.len() as int] == spec_un_op_byte(op)
                        &&& is_whitespace_byte(text[bb.len() + 1int])
                    },
                    None => false,
                }
            },
            _ => false,
        },
        _ => false,
    }
}

/// Check one binary operation for a glued unary operator on its right.
pub fn check_un_op(sm: &SourceMap, bin_expr: &Expr) -> (r: Option<UnOpFinding>)
    requires
        sm.wf(),
        bin_expr.span.wf(),
        match bin_expr.kind {
            ExprKind::Binary(bin_op, _, _) => bin_op.span.wf(),
            _ => true,
        },
    ensures
        r is Some <==> spec_un_op_fires(*sm, *bin_expr),
        match r {
            Some(f) => match bin_expr.kind {
                ExprKind::Binary(bin_op, _, rhs) => {
                    let bb = spec_bin_op_bytes(bin_op.node);
                    let ub = spec_un_op_byte(rhs.kind->Unary_0);
                    &&& f.lint_span == (Span {
                        lo: bin_op.span.lo,
                        hi: (bin_op.span.lo + bb.len() + 1) as usize,
                        ctxt: bin_expr.span.ctxt,
                    })
                    &&& f.sugg@ == bb + seq![32u8, ub]
                    &&& f.sugg_span == sm.spec_with_trailing_ws(f.lint_span)
                    &&& f.app == (if bin_expr.span.ctxt == ROOT_CONTEXT {
                        Applicability::MachineApplicable
                    } else {
                        Applicability::MaybeIncorrect
                    })
                },
                _ => false,
            },
            None => true,
        },
{
    match &bin_expr.kind {
        ExprKind::Binary(bin_op, _, rhs) => match &rhs.kind {
            ExprKind::Unary(op, _) => {
                if bin_op.span.ctxt != bin_expr.span.ctxt || rhs.span.ctxt != bin_expr.span.ctxt
                    || bin_op.span.lo > rhs.span.hi {
                    return None;
                }
                let window = Span {
                    lo: bin_op.span.lo,
                    hi: rhs.span.hi,
                    ctxt: bin_expr.span.ctxt,
                };
                let bb = bin_op_bytes(bin_op.node);
                let ub = un_op_byte(*op);
                match sm.snippet_opt(window) {
                    Some(text) => {
                        if text.len() >= bb.len() + 2 && crate::bytes_at(text.as_slice(), 0, bb.as_slice())
                            && text[bb.len()]
                            == ub && crate::source_map::whitespace_byte_at(
                            text.as_slice(),
                            bb.len() + 1,
                        ) {
                            proof {
                                crate::source_map::lemma_snippet_len(*sm, window);
                            }
                            let lint_span = Span {
                                lo: bin_op.span.lo,
                                hi: bin_op.span.lo + bb.len() + 1,
                                ctxt: bin_expr.span.ctxt,
                            };
                            let sugg_span = sm.with_trailing_whitespace(lint_span);
                            let mut sugg = bb;
                            sugg.push(32);
                            sugg.push(ub);
                            proof {
                                assert(sugg@ =~= spec_bin_op_bytes(bin_op.node) + seq![
                                    32u8,
                                    spec_un_op_byte(rhs.kind->Unary_0),
                                ]);
                            }
                            Some(UnOpFinding {
                                lint_span,
                                sugg_span,
                                sugg,
                                app: if bin_expr.span.ctxt == ROOT_CONTEXT {
                                    Applicability::MachineApplicable
                                } else {
                                    Applicability::MaybeIncorrect
                                },
                            })
                        } else {
                            None
                        }
                    },
                    None => None,
                }
            },
            _ => None,
        },
        _ => None,
    }
}

/// The number of newline bytes in `s`.
pub open spec fn count_nl(s: Seq<u8>) -> int
    decreases s.len(),
{
    if s.len() == 0 {
        0
    } else {
        (if s[0] == 10 {
            1int
        } else {
            0int
        }) + count_nl(s.drop_first())
    }
}

/// Whether `s` holds a newline byte.
pub open spec fn has_nl(s: Seq<u8>) -> bool {
    exists|i: int| 0 <= i < s.len() && s[i] == 10
}

/// The newline count and pending-newline flag after one whitespace token:
/// a line comment just before absorbed the first newline of the run.
pub open spec fn spec_ws_step(lf: int, skip: bool, x: int) -> (int, bool) {
    if x == 0 {
        (lf, skip)
    } else {
        (
            lf + x - (if skip {
                1int
            } else {
                0int
            }),
            false,
        )
    }
}

/// The scan up to the `else` keyword. Newlines are counted; a line comment
/// absorbs the newline that ends its line; a block comment that itself
/// spans a line counts as one; any unexpected token means "untrusted
/// shape — do not flag". Finding `else` after a pending absorbed newline
/// or more than one counted newline flags at once; otherwise the scan goes
/// on behind the keyword.
pub open spec fn spec_scan_before_else(
    s: Seq<u8>,
    toks: Seq<crate::scanner::Token>,
    i: int,
    lf: int,
    skip: bool,
    is_block: bool,
) -> bool
    decreases toks.len() - i,
{
    if i < 0 || i >= toks.len() {
        false
    } else {
        let t = toks[i];
        let text = crate::scanner::token_text(s, t);
        match t.kind {
            crate::scanner::TokenKind::Whitespace => {
                let (lf2, skip2) = spec_ws_step(lf, skip, count_nl(text));
                spec_scan_before_else(s, toks, i + 1, lf2, skip2, is_block)
            },
            crate::scanner::TokenKind::LineComment => spec_scan_before_else(
                s,
                toks,
                i + 1,
                lf,
                lf != 0,
                is_block,
            ),
            crate::scanner::TokenKind::BlockComment { terminated: _ } => {
                let lf2 = if lf == 0 {
                    if has_nl(text) {
                        1int
                    } else {
                        0int
                    }
                } else {
                    lf
                };
                spec_scan_before_else(s, toks, i + 1, lf2, lf2 != 0, is_block)
            },
            crate::scanner::TokenKind::Ident => if text == seq![101u8, 108u8, 115u8, 101u8] {
                if skip || lf > 1 {
                    true
                } else {
                    spec_scan_after_else(s, toks, i + 1, 0, false, is_block && lf != 0)
                }
            } else {
                false
            },
            crate::scanner::TokenKind::Other => false,
        }
    }
}

/// The scan behind the `else` keyword, up to its block or `if`: a line
/// comment always flags, an unexpected token never does, and at the end
/// the adjacency is flagged when a newline is still pending or more were
/// counted than one allowed line break.
pub open spec fn spec_scan_after_else(
    s: Seq<u8>,
    toks: Seq<crate::scanner::Token>,
    i: int,
    lf: int,
    skip: bool,
    allow: bool,
) -> bool
    decreases toks.len() - i,
{
    if i < 0 || i >= toks.len() {
        skip || lf > (if allow {
            1int
        } else {
            0int
        })
    } else {
        let t = toks[i];
        let text = crate::scanner::token_text(s, t);
        match t.kind {
            crate::scanner::TokenKind::Whitespace => {
                let (lf2, skip2) = spec_ws_step(lf, skip, count_nl(text));
                spec_scan_after_else(s, toks, i + 1, lf2, skip2, allow)
            },
            crate::scanner::TokenKind::BlockComment { terminated: _ } => {
                let skip2 = lf != 0;
                spec_scan_after_else(s, toks, i + 1, lf, skip2, allow || skip2)
            },
            crate::scanner::TokenKind::LineComment => true,
            _ => false,
        }
    }
}

/// The whole token-window decision for an `else` between two spans.
pub open spec fn spec_else_scan(s: Seq<u8>, is_block: bool) -> bool {
    spec_scan_before_else(s, crate::scanner::spec_tokens(s, 0), 0, 0, false, is_block)
}

proof fn lemma_count_nl_push(t: Seq<u8>, b: u8)
    ensures
        count_nl(t.push(b)) == count_nl(t) + (if b == 10 {
            1int
        } else {
            0int
        }),
    decreases t.len(),
{
    let p = t.push(b);
    assert(p.len() == t.len() + 1);
    assert(count_nl(p) == (if p[0] == 10 {
        1int
    } else {
        0int
    }) + count_nl(p.drop_first()));
    if t.len() == 0 {
        assert(p.drop_first() =~= Seq::<u8>::empty());
        assert(p[0] == b);
    } else {
        assert(p.drop_first() =~= t.drop_first().push(b));
        lemma_count_nl_push(t.drop_first(), b);
        assert(p[0] == t[0]);
    }
}

proof fn lemma_count_nl_nonneg(t: Seq<u8>)
    ensures
        0 <= count_nl(t) <= t.len(),
    decreases t.len(),
{
    if t.len() > 0 {
        lemma_count_nl_nonneg(t.drop_first());
    }
}

/// Count the newline bytes in `src[from..to]`.
fn count_nl_in(src: &Vec<u8>, from: usize, to: usize) -> (r: usize)
    requires
        from <= to <= src@.len(),
    ensures
        r == count_nl(src@.subrange(from as int, to as int)),
        r <= to - from,
{
    let mut c: usize = 0;
    let mut k: usize = from;
    proof {
        assert(src@.subrange(from as int, from as int) =~= Seq::<u8>::empty());
    }
    while k < to
        invariant
            from <= k <= to <= src@.len(),
            c == count_nl(src@.subrange(from as int, k as int)),
            c <= k - from,
        decreases to - k,
    {
        proof {
            lemma_count_nl_push(src@.subrange(from as int, k as int), src@[k as int]);
            assert(src@.subrange(from as int, k + 1) =~= src@.subrange(
                from as int,
                k as int,
            ).push(src@[k as int]));
        }
        if src[k] == 10 {
            c += 1;
        }
        k += 1;
    }
    c
}

/// Whether `src[from..to]` holds a newline byte.
fn has_nl_in(src: &Vec<u8>, from: usize, to: usize) -> (r: bool)
    requires
        from <= to <= src@.len(),
    ensures
        r == has_nl(src@.subrange(from as int, to as int)),
{
    let ghost sub = src@.subrange(from as int, to as int);
    let mut k: usize = from;
    while k < to
        invariant
            from <= k <= to <= src@.len(),
            sub == src@.subrange(from as int, to as int),
            forall|j: int| 0 <= j < k - from ==> sub[j] != 10,
        decreases to - k,
    {
        if src[k] == 10 {
            proof {
                assert(sub[k - from] == 10);
            }
            return true;
        }
        k += 1;
    }
    false
}

/// Whether the token spells exactly `else`.
fn is_else_token(src: &Vec<u8>, start: usize, len: usize) -> (r: bool)
    requires
        start + len <= src@.len(),
    ensures
        r == (src@.subrange(start as int, start + len) == seq![101u8, 108u8, 115u8, 101u8]),
{
    let ghost sub = src@.subrange(start as int, start + len);
    let total = src.len();
    proof {
        assert(total == src@.len());
    }
    if len != 4 {
        proof {
            assert(sub.len() != 4);
        }
        return false;
    }
    let r = src[start] == 101 && src[start + 1] == 108 && src[start + 2] == 115 && src[start + 3]
        == 101;
    proof {
        if r {
            assert(sub =~= seq![101u8, 108u8, 115u8, 101u8]);
        } else {
            assert(!(sub[0] == 101 && sub[1] == 108 && sub[2] == 115 && sub[3] == 101));
        }
    }
    r
}

/// Run the token-window scan over the text standing between the end of an
/// `if`'s block and its `else`.
fn else_scan(text: &Vec<u8>, is_block: bool) -> (r: bool)
    ensures
        r == spec_else_scan(text@, is_block),
{
    let tlen = text.len();
    let toks = crate::scanner::tokenize(text.as_slice());
    let ghost s = text@;
    let ghost all = crate::scanner::spec_tokens(s, 0);
    let n = toks.len();
    proof {
        assert(s.len() == tlen);
        crate::scanner::lemma_spec_tokens_wf(s, 0);
    }
    let mut i: usize = 0;
    let mut lf: usize = 0;
    let ghost mut lf_g: int = 0int;
    let mut skip = false;
    let mut fired = false;
    let mut failed = false;
    let mut found = false;
    let mut allow = false;
    while i < n && !fired && !failed && !found
        invariant
            0 <= i <= n,
            n == all.len(),
            toks@ == all,
            s == text@,
            s.len() <= usize::MAX,
            all == crate::scanner::spec_tokens(s, 0),
            forall|k: int| 0 <= k < all.len() ==> {
                let t = #[trigger] all[k];
                0 <= t.start && t.len > 0 && t.start + t.len <= s.len()
            },
            0 <= lf_g,
            lf <= 2,
            (lf as int == lf_g) || (lf == 2 && lf_g >= 2),
            !fired && !failed && !found ==> spec_else_scan(s, is_block) == spec_scan_before_else(
                s,
                all,
                i as int,
                lf_g,
                skip,
                is_block,
            ),
            fired ==> spec_else_scan(s, is_block) == true,
            failed ==> spec_else_scan(s, is_block) == false,
            found ==> spec_else_scan(s, is_block) == spec_scan_after_else(
                s,
                all,
                i as int,
                0,
                false,
                allow,
            ),
        decreases n - i,
    {
        let t = toks[i];
        match t.kind {
            crate::scanner::TokenKind::Whitespace => {
                let x = count_nl_in(text, t.start, t.start + t.len);
                proof {
                    lemma_count_nl_nonneg(crate::scanner::token_text(s, t));
                }
                if x > 0 {
                    let dec: usize = if skip {
                        1
                    } else {
                        0
                    };
                    let add = x - dec;
                    proof {
                        lf_g = lf_g + x - dec;
                    }
                    if add >= 2 || lf >= 2 {
                        lf = 2;
                    } else {
                        lf = lf + add;
                        if lf > 2 {
                            lf = 2;
                        }
                    }
                    skip = false;
                }
            },
            crate::scanner::TokenKind::LineComment => {
                skip = lf != 0;
            },
            crate::scanner::TokenKind::BlockComment { terminated: _ } => {
                if lf == 0 {
                    let spans_line = has_nl_in(text, t.start, t.start + t.len);
                    if spans_line {
                        lf = 1;
                        proof {
                            lf_g = 1int;
                        }
                    }
                }
                skip = lf != 0;
            },
            crate::scanner::TokenKind::Ident => {
                if is_else_token(text, t.start, t.len) {
                    if skip || lf > 1 {
                        fired = true;
                    } else {
                        found = true;
                        allow = is_block && lf != 0;
                    }
                } else {
                    failed = true;
                }
            },
            crate::scanner::TokenKind::Other => {
                failed = true;
            },
        }
        if !fired && !failed {
            i += 1;
        } else {
            i += 1;
        }
    }
    if fired {
        return true;
    }
    if failed || !found {
        return false;
    }
    lf = 0;
    proof {
        lf_g = 0int;
    }
    skip = false;
    while i < n && !fired && !failed
        invariant
            0 <= i <= n,
            n == all.len(),
            toks@ == all,
            s == text@,
            s.len() <= usize::MAX,
            forall|k: int| 0 <= k < all.len() ==> {
                let t = #[trigger] all[k];
                0 <= t.start && t.len > 0 && t.start + t.len <= s.len()
            },
            0 <= lf_g,
            lf <= 2,
            (lf as int == lf_g) || (lf == 2 && lf_g >= 2),
            !fired && !failed ==> spec_else_scan(s, is_block) == spec_scan_after_else(
                s,
                all,
                i as int,
                lf_g,
                skip,
                allow,
            ),
            fired ==> spec_else_scan(s, is_block) == true,
            failed ==> spec_else_scan(s, is_block) == false,
        decreases n - i,
    {
        let t = toks[i];
        match t.kind {
            crate::scanner::TokenKind::Whitespace => {
                let x = count_nl_in(text, t.start, t.start + t.len);
                proof {
                    lemma_count_nl_nonneg(crate::scanner::token_text(s, t));
                }
                if x > 0 {
                    let dec: usize = if skip {
                        1
                    } else {
                        0
                    };
                    let add = x - dec;
                    proof {
                        lf_g = lf_g + x - dec;
                    }
                    if add >= 2 || lf >= 2 {
                        lf = 2;
                    } else {
                        lf = lf + add;
                        if lf > 2 {
                            lf = 2;
                        }
                    }
                    skip = false;
                }
            },
            crate::scanner::TokenKind::BlockComment { terminated: _ } => {
                skip = lf != 0;
                allow = allow || skip;
            },
            crate::scanner::TokenKind::LineComment => {
                fired = true;
            },
            _ => {
                failed = true;
            },
        }
        i += 1;
    }
    if fired {
        true
    } else if failed {
        false
    } else {
        let limit: usize = if allow {
            1
        } else {
            0
        };
        skip || lf > limit
    }
}

/// What a flagged suspicious `else` reports: the range between the then
/// block and the `else` body, and whether that body is a block.
pub struct ElseFinding {
    pub lint_span: Span,
    pub else_is_block: bool,
}

/// Whether the `if`'s `else` is hidden by its formatting: a blank line or
/// a line-spanning comment stands between the then block and the `else`,
/// or between the `else` and its body.
pub open spec fn spec_else_fires(sm: SourceMap, expr: Expr) -> bool {
    match expr.kind {
        ExprKind::If(_, then, els) => match els {
            Some(else_expr) => {
                &&& then.span.ctxt == expr.span.ctxt
                &&& else_expr.span.ctxt == expr.span.ctxt
                &&& then.span.hi <= else_expr.span.lo
                &&& match sm.spec_snippet(
                    Span { lo: then.span.hi, hi: else_expr.span.lo, ctxt: expr.span.ctxt },
                ) {
                    Some(text) => spec_else_scan(text, else_expr.kind is BlockExpr),
                    None => false,
                }
            },
            None => false,
        },
        _ => false,
    }
}

/// Check the formatting around an `if` expression's `else`.
pub fn check_else(sm: &SourceMap, expr: &Expr) -> (r: Option<ElseFinding>)
    requires
        sm.wf(),
        expr.span.wf(),
        match expr.kind {
            ExprKind::If(_, then, els) => then.span.wf() && match els {
                Some(e2) => e2.span.wf(),
                None => true,
            },
            _ => true,
        },
    ensures
        r is Some <==> spec_else_fires(*sm, *expr),
        match r {
            Some(f) => match expr.kind {
                ExprKind::If(_, then, els) => {
                    &&& f.lint_span == (Span {
                        lo: then.span.hi,
                        hi: els->Some_0.span.lo,
                        ctxt: expr.span.ctxt,
                    })
                    &&& f.else_is_block == (els->Some_0.kind is BlockExpr)
                },
                _ => false,
            },
            None => true,
        },
{
    match &expr.kind {
        ExprKind::If(_, then, els) => match els {
            Some(else_expr) => {
                if then.span.ctxt != expr.span.ctxt || else_expr.span.ctxt != expr.span.ctxt
                    || then.span.hi > else_expr.span.lo {
                    return None;
                }
                let window = Span {
                    lo: then.span.hi,
                    hi: else_expr.span.lo,
                    ctxt: expr.span.ctxt,
                };
                let is_block = matches!(&else_expr.kind, ExprKind::BlockExpr { .. });
                match sm.snippet_opt(window) {
                    Some(text) => {
                        if else_scan(&text, is_block) {
                            Some(ElseFinding { lint_span: window, else_is_block: is_block })
                        } else {
                            None
                        }
                    },
                    None => None,
                }
            },
            None => None,
        },
        _ => None,
    }
}


/// What a flagged probably-missing `else` reports: the whitespace range
/// between the two statements, the `else` text to insert there, and a line
/// break followed by the first statement's line indentation as the other
/// way out.
pub struct MissingElseFinding {
    pub lint_span: Span,
    pub else_sugg: Vec<u8>,
    pub break_sugg: Vec<u8>,
}

/// Whether two adjacent statements read as an `if` that lost its `else`:
/// the first is an `if` whose text really reads as one, the second is an
/// `if` or a block, both share the context, and nothing but non-newline
/// whitespace stands between them — they sit on one line as though the
/// word `else` fell out.
pub open spec fn spec_missing_else_fires(sm: SourceMap, ctxt: usize, first: Expr, second: Expr) -> bool {
    &&& first.kind is If
    &&& (second.kind is If || second.kind is BlockExpr)
    &&& first.span.ctxt == ctxt
    &&& second.span.ctxt == ctxt
    &&& crate::provenance::spec_span_matches_pat(
        sm,
        first.span,
        crate::provenance::SpecPat::Text(seq![105u8, 102u8]),
        crate::provenance::SpecPat::Text(seq![125u8]),
    )
    &&& first.span.hi <= second.span.lo
    &&& match sm.spec_snippet(Span { lo: first.span.hi, hi: second.span.lo, ctxt }) {
        Some(text) => spec_all_blank(text),
        None => false,
    }
}

/// Nothing but non-newline whitespace.
pub open spec fn spec_all_blank(text: Seq<u8>) -> bool {
    forall|j: int| 0 <= j < text.len() ==> is_whitespace_byte(#[trigger] text[j]) && text[j]
        != 10
}

fn all_ws_no_nl(text: &Vec<u8>) -> (r: bool)
    ensures
        r == spec_all_blank(text@),
{
    let n = text.len();
    let mut k: usize = 0;
    while k < n
        invariant
            0 <= k <= n,
            n == text@.len(),
            forall|j: int| 0 <= j < k ==> is_whitespace_byte(#[trigger] text@[j]) && text@[j]
                != 10,
        decreases n - k,
    {
        let b = text[k];
        if b == 10 || !(b == 32 || b == 9 || b == 13 || b == 11 || b == 12) {
            return false;
        }
        k += 1;
    }
    true
}

/// Check two adjacent statements for the missing-`else` shape.
#[verifier::rlimit(100)]
pub fn check_missing_else(sm: &SourceMap, ctxt: usize, first: &Expr, second: &Expr) -> (r: Option<
    MissingElseFinding,
>)
    requires
        sm.wf(),
        first.span.wf(),
        second.span.wf(),
    ensures
        r is Some <==> spec_missing_else_fires(*sm, ctxt, *first, *second),
        match r {
            Some(f) => {
                &&& f.lint_span == (Span { lo: first.span.hi, hi: second.span.lo, ctxt })
                &&& f.else_sugg@ == seq![32u8, 101u8, 108u8, 115u8, 101u8, 32u8]
                &&& f.break_sugg@ == seq![10u8] + sm.spec_line_indent(first.span)
            },
            None => true,
        },
{
    if !(matches!(first.kind, ExprKind::If(_, _, _)) && (matches!(second.kind, ExprKind::If(_, _, _))
        || matches!(second.kind, ExprKind::BlockExpr { .. }))) {
        return None;
    }
    if first.span.ctxt != ctxt || second.span.ctxt != ctxt {
        return None;
    }
    if !crate::provenance::is_span_if(sm, first.span) {
        return None;
    }
    if first.span.hi > second.span.lo {
        return None;
    }
    let window = Span { lo: first.span.hi, hi: second.span.lo, ctxt };
    match sm.snippet_opt(window) {
        Some(text) => {
            if all_ws_no_nl(&text) {
                let else_sugg: Vec<u8> = vec![32u8, 101u8, 108u8, 115u8, 101u8, 32u8];
                proof {
                    assert(else_sugg@ =~= seq![32u8, 101u8, 108u8, 115u8, 101u8, 32u8]);
                }
                let mut break_sugg: Vec<u8> = vec![10u8];
                proof {
                    assert(break_sugg@ =~= seq![10u8]);
                }
                let mut indent: Vec<u8> = match sm.snippet_indent(first.span) {
                    Some(ind) => ind,
                    None => Vec::new(),
                };
                break_sugg.append(&mut indent);
                proof {
                    assert(break_sugg@ =~= seq![10u8] + sm.spec_line_indent(first.span));
                }
                Some(MissingElseFinding { lint_span: window, else_sugg, break_sugg })
            } else {
                None
            }
        },
        None => None,
    }
}

/// What a flagged possibly-missing comma reports: the operator's own
/// range, the place a comma would go, and the place a space would go.
#[derive(Clone, Copy, PartialEq, Eq, Structural, Debug)]
pub struct CommaFinding {
    pub lint_span: Span,
    pub comma_span: Span,
    pub space_span: Span,
}

/// Whether a binary operation inside an array or argument list reads as a
/// unary operation that lost its comma: the operator follows whitespace
/// but sticks directly to its right operand, as in `-4` on a fresh line
/// after `-3` without a comma.
pub open spec fn spec_comma_fires(sm: SourceMap, tree: crate::hygiene::ContextTree, ctxt: usize, e: Expr) -> bool {
    match e.kind {
        ExprKind::Binary(op, lhs, _) => {
            let bb = spec_bin_op_bytes(op.node);
            &&& e.span.ctxt == ctxt
            &&& (op.node is And || op.node is Mul || op.node is Sub || op.node is BitAnd)
            &&& op.span.ctxt == ctxt
            &&& op.span.lo <= e.span.hi
            &&& match sm.spec_lookup(op.span.lo as int, e.span.hi as int) {
                Some(k) => match sm.files@[k].src {
                    Some(text) => {
                        let a = op.span.lo - sm.files@[k].start_pos;
                        let b = e.span.hi - sm.files@[k].start_pos;
                        &&& a >= 1
                        &&& is_whitespace_byte(text@[a - 1])
                        &&& a + bb.len() < b
                        &&& text@.subrange(a as int, a + bb.len()) == bb
                        &&& !is_whitespace_byte(text@[a + bb.len()])
                        &&& text@[a + bb.len()] != 47
                    },
                    None => false,
                },
                None => false,
            }
            &&& tree.spec_walk(lhs.span, ctxt as int).ctxt == ctxt
        },
        _ => false,
    }
}

/// The comma findings of a node and everything below it: a binary node in
/// the right context is tested and both operands are searched in turn.
pub open spec fn spec_missing_commas(
    sm: SourceMap,
    tree: crate::hygiene::ContextTree,
    ctxt: usize,
    e: Expr,
) -> Seq<CommaFinding>
    decreases e,
{
    match e.kind {
        ExprKind::Binary(op, lhs, rhs) => if e.span.ctxt == ctxt {
            let here = if spec_comma_fires(sm, tree, ctxt, e) {
                seq![
                    CommaFinding {
                        lint_span: op.span,
                        comma_span: Span {
                            lo: tree.spec_walk(lhs.span, ctxt as int).hi,
                            hi: tree.spec_walk(lhs.span, ctxt as int).hi,
                            ctxt: tree.spec_walk(lhs.span, ctxt as int).ctxt,
                        },
                        space_span: Span { lo: op.span.hi, hi: op.span.hi, ctxt },
                    },
                ]
            } else {
                Seq::empty()
            };
            here + spec_missing_commas(sm, tree, ctxt, *lhs) + spec_missing_commas(
                sm,
                tree,
                ctxt,
                *rhs,
            )
        } else {
            Seq::empty()
        },
        _ => Seq::empty(),
    }
}

/// Search a list element for binary operations that read as a unary
/// operation missing its comma.
#[verifier::rlimit(100)]
pub fn check_missing_comma(
    sm: &SourceMap,
    tree: &crate::hygiene::ContextTree,
    ctxt: usize,
    e: &Expr,
) -> (r: Vec<CommaFinding>)
    requires
        sm.wf(),
        tree.wf(),
        crate::ast::spec_wf_expr(*e, tree.entries@.len() as int),
    ensures
        r@ == spec_missing_commas(*sm, *tree, ctxt, *e),
    decreases *e,
{
    match &e.kind {
        ExprKind::Binary(op, lhs, rhs) => {
            proof {
                assert(crate::ast::spec_wf_expr(**lhs, tree.entries@.len() as int));
                assert(crate::ast::spec_wf_expr(**rhs, tree.entries@.len() as int));
                assert(crate::ast::spec_wf_span(lhs.span, tree.entries@.len() as int));
            }
            if e.span.ctxt != ctxt {
                let empty: Vec<CommaFinding> = Vec::new();
                return empty;
            }
            let mut out: Vec<CommaFinding> = Vec::new();
            let fires_shape = matches!(
                op.node,
                BinOpKind::And | BinOpKind::Mul | BinOpKind::Sub | BinOpKind::BitAnd
            ) && op.span.ctxt == ctxt && op.span.lo <= e.span.hi;
            if fires_shape {
                let bb = bin_op_bytes(op.node);
                let text_ok = match sm.lookup(op.span.lo, e.span.hi) {
                    Some(k) => {
                        let f = &sm.files[k];
                        match &f.src {
                            Some(text) => {
                                let a = op.span.lo - f.start_pos;
                                let b = e.span.hi - f.start_pos;
                                a >= 1 && crate::source_map::whitespace_byte_at(
                                    text.as_slice(),
                                    a - 1,
                                ) && b - a > bb.len() && crate::bytes_at(text.as_slice(), a, bb.as_slice())
                                    && !crate::source_map::whitespace_byte_at(
                                    text.as_slice(),
                                    a + bb.len(),
                                ) && text[a + bb.len()] != 47
                            },
                            None => false,
                        }
                    },
                    None => false,
                };
                if text_ok {
                    match tree.walk_span_to_context(lhs.span, ctxt) {
                        Some(walked) => {
                            out.push(
                                CommaFinding {
                                    lint_span: op.span,
                                    comma_span: Span {
                                        lo: walked.hi,
                                        hi: walked.hi,
                                        ctxt: walked.ctxt,
                                    },
                                    space_span: Span { lo: op.span.hi, hi: op.span.hi, ctxt },
                                },
                            );
                        },
                        None => {},
                    }
                }
            }
            let mut left = check_missing_comma(sm, tree, ctxt, lhs);
            let mut right = check_missing_comma(sm, tree, ctxt, rhs);
            let ghost here = out@;
            out.append(&mut left);
            out.append(&mut right);
            proof {
                assert(out@ =~= spec_missing_commas(*sm, *tree, ctxt, *e));
            }
            out
        },
        _ => {
            let empty: Vec<CommaFinding> = Vec::new();
            empty
        },
    }
}

/// The comma findings over the elements of a list, each element searched
/// in the list's own context.
pub open spec fn spec_commas_over(
    sm: SourceMap,
    tree: crate::hygiene::ContextTree,
    ctxt: usize,
    args: Seq<Expr>,
    i: int,
) -> Seq<CommaFinding>
    decreases args.len() - i,
{
    if i < 0 || i >= args.len() {
        Seq::empty()
    } else {
        spec_missing_commas(sm, tree, ctxt, args[i]) + spec_commas_over(sm, tree, ctxt, args, i + 1)
    }
}

/// Everything the formatting checks have to say about one node.
pub struct ExprReport {
    pub assign: Option<AssignFinding>,
    pub un_op: Option<UnOpFinding>,
    pub else_finding: Option<ElseFinding>,
    pub commas: Vec<CommaFinding>,
}

fn commas_over_args(
    sm: &SourceMap,
    tree: &crate::hygiene::ContextTree,
    ctxt: usize,
    args: &Vec<Expr>,
) -> (r: Vec<CommaFinding>)
    requires
        sm.wf(),
        tree.wf(),
        crate::ast::spec_wf_exprs(args@, tree.entries@.len() as int),
    ensures
        r@ == spec_commas_over(*sm, *tree, ctxt, args@, 0),
{
    let n = args.len();
    let mut out: Vec<CommaFinding> = Vec::new();
    let mut i: usize = 0;
    #[verifier::loop_isolation(false)]
    while i < n
        invariant
            0 <= i <= n,
            spec_commas_over(*sm, *tree, ctxt, args@, 0) == out@ + spec_commas_over(
                *sm,
                *tree,
                ctxt,
                args@,
                i as int,
            ),
        decreases n - i,
    {
        proof {
            crate::ast::lemma_wf_exprs_index(args@, tree.entries@.len() as int, i as int);
        }
        let mut found = check_missing_comma(sm, tree, ctxt, &args[i]);
        let ghost before = out@;
        out.append(&mut found);
        proof {
            assert(out@ =~= before + spec_missing_commas(*sm, *tree, ctxt, args@[i as int]));
        }
        i += 1;
    }
    proof {
        assert(spec_commas_over(*sm, *tree, ctxt, args@, n as int)
            =~= Seq::<CommaFinding>::empty());
        assert(out@ + Seq::<CommaFinding>::empty() =~= out@);
    }
    out
}

/// Run every formatting check that applies to a node of this shape: the
/// hidden-`else` scan on an `if` with an `else`, the typo shape on an
/// assignment, the glued-operator shape on a binary operation, and the
/// missing-comma search over the elements of lists, calls and
/// parenthesized expressions.
pub fn check_expr(sm: &SourceMap, tree: &crate::hygiene::ContextTree, e: &Expr) -> (r: ExprReport)
    requires
        sm.wf(),
        tree.wf(),
        crate::ast::spec_wf_expr(*e, tree.entries@.len() as int),
    ensures
        r.else_finding is Some <==> spec_else_fires(*sm, *e),
        r.assign is Some <==> spec_assign_typo_fires(*sm, *e),
        r.un_op is Some <==> spec_un_op_fires(*sm, *e),
        ({
            let ctxt = e.span.ctxt;
            match e.kind {
                ExprKind::Array(args) => r.commas@ == spec_commas_over(*sm, *tree, ctxt, args@, 0),
                ExprKind::Tup(args) => r.commas@ == spec_commas_over(*sm, *tree, ctxt, args@, 0),
                ExprKind::Call(_, args) => r.commas@ == spec_commas_over(
                    *sm,
                    *tree,
                    ctxt,
                    args@,
                    0,
                ),
                ExprKind::MethodCall(args) => r.commas@ == spec_commas_over(
                    *sm,
                    *tree,
                    ctxt,
                    args@,
                    0,
                ),
                ExprKind::Paren(child) => r.commas@ == spec_missing_commas(
                    *sm,
                    *tree,
                    ctxt,
                    *child,
                ),
                _ => r.commas@ == Seq::<CommaFinding>::empty(),
            }
        }),
{
    let mut report = ExprReport { assign: None, un_op: None, else_finding: None, commas: Vec::new() };
    let ghost nc = tree.entries@.len() as int;
    match &e.kind {
        ExprKind::If(_, then, els) => {
            if els.is_some() {
                proof {
                    assert(crate::ast::spec_wf_block(*then, nc));
                    match els {
                        Some(e2) => {
                            assert(crate::ast::spec_wf_expr(**e2, nc));
                        },
                        None => {},
                    }
                }
                report.else_finding = check_else(sm, e);
            }
        },
        ExprKind::Assign(_, _, op_sp) => {
            proof {
                assert(crate::ast::spec_wf_span(*op_sp, nc));
            }
            report.assign = check_assign(sm, e);
        },
        ExprKind::Binary(op, _, _) => {
            proof {
                assert(crate::ast::spec_wf_span(op.span, nc));
            }
            report.un_op = check_un_op(sm, e);
        },
        ExprKind::Array(args) => {
            report.commas = commas_over_args(sm, tree, e.span.ctxt, args);
        },
        ExprKind::Tup(args) => {
            report.commas = commas_over_args(sm, tree, e.span.ctxt, args);
        },
        ExprKind::Call(_, args) => {
            report.commas = commas_over_args(sm, tree, e.span.ctxt, args);
        },
        ExprKind::MethodCall(args) => {
            report.commas = commas_over_args(sm, tree, e.span.ctxt, args);
        },
        ExprKind::Paren(child) => {
            report.commas = check_missing_comma(sm, tree, e.span.ctxt, child);
        },
        _ => {},
    }
    report
}

/// The statement pairs of a block that fire the missing-`else` check, as
/// (whitespace range, first statement's span).
pub open spec fn spec_block_missing_else(
    sm: SourceMap,
    ctxt: usize,
    stmts: Seq<crate::ast::Stmt>,
    i: int,
) -> Seq<(Span, Span)>
    decreases stmts.len() - i,
{
    if i < 0 || i + 1 >= stmts.len() {
        Seq::empty()
    } else {
        let here = match (stmts[i].kind, stmts[i + 1].kind) {
            (crate::ast::StmtKind::Expr(first), crate::ast::StmtKind::Expr(second)) => if spec_missing_else_fires(
                sm,
                ctxt,
                *first,
                *second,
            ) {
                seq![
                    (
                        Span { lo: first.span.hi, hi: second.span.lo, ctxt },
                        first.span,
                    ),
                ]
            } else {
                Seq::empty()
            },
            (crate::ast::StmtKind::Expr(first), crate::ast::StmtKind::Semi(second)) => if spec_missing_else_fires(
                sm,
                ctxt,
                *first,
                *second,
            ) {
                seq![
                    (
                        Span { lo: first.span.hi, hi: second.span.lo, ctxt },
                        first.span,
                    ),
                ]
            } else {
                Seq::empty()
            },
            _ => Seq::empty(),
        };
        here + spec_block_missing_else(sm, ctxt, stmts, i + 1)
    }
}

/// Walk the statements of a block and report every adjacent pair that
/// reads as an `if` missing its `else`.
#[verifier::rlimit(100)]
pub fn check_block(sm: &SourceMap, block: &crate::ast::Block) -> (r: Vec<MissingElseFinding>)
    requires
        sm.wf(),
        block.span.wf(),
        crate::ast::spec_wf_block(*block, usize::MAX as int),
    ensures
        ({
            let pairs = spec_block_missing_else(*sm, block.span.ctxt, block.stmts@, 0);
            &&& r@.len() == pairs.len()
            &&& forall|j: int| 0 <= j < pairs.len() ==> {
                &&& (#[trigger] r@[j]).lint_span == pairs[j].0
                &&& r@[j].else_sugg@ == seq![32u8, 101u8, 108u8, 115u8, 101u8, 32u8]
                &&& r@[j].break_sugg@ == seq![10u8] + sm.spec_line_indent(pairs[j].1)
            }
        }),
{
    let ctxt = block.span.ctxt;
    let ghost stmts = block.stmts@;
    let n = block.stmts.len();
    let mut out: Vec<MissingElseFinding> = Vec::new();
    let mut i: usize = 0;
    if n == 0 {
        return out;
    }
    #[verifier::loop_isolation(false)]
    while i < n - 1
        invariant
            0 <= i <= n,
            n == stmts.len(),
            stmts == block.stmts@,
            sm.wf(),
            crate::ast::spec_wf_block(*block, usize::MAX as int),
            ctxt == block.span.ctxt,
            ({
                let full = spec_block_missing_else(*sm, ctxt, stmts, 0);
                let done = spec_block_missing_else(*sm, ctxt, stmts, i as int);
                &&& full.len() == out@.len() + done.len()
                &&& forall|j: int| 0 <= j < out@.len() ==> {
                    &&& (#[trigger] out@[j]).lint_span == full[j].0
                    &&& out@[j].else_sugg@ == seq![32u8, 101u8, 108u8, 115u8, 101u8, 32u8]
                    &&& out@[j].break_sugg@ == seq![10u8] + sm.spec_line_indent(full[j].1)
                }
                &&& forall|j: int| 0 <= j < done.len() ==> #[trigger] done[j]
                    == full[out@.len() + j]
            }),
        decreases n - i,
    {
        proof {
            crate::ast::lemma_wf_stmts_index(stmts, usize::MAX as int, i as int);
            crate::ast::lemma_wf_stmts_index(stmts, usize::MAX as int, i + 1);
        }
        let ghost mut gfirst: Span = block.span;
        let found: Option<MissingElseFinding> = match (
            &block.stmts[i].kind,
            &block.stmts[i + 1].kind,
        ) {
            (crate::ast::StmtKind::Expr(first), crate::ast::StmtKind::Expr(second)) => {
                proof {
                    gfirst = first.span;
                }
                check_missing_else(sm, ctxt, first, second)
            },
            (crate::ast::StmtKind::Expr(first), crate::ast::StmtKind::Semi(second)) => {
                proof {
                    gfirst = first.span;
                }
                check_missing_else(sm, ctxt, first, second)
            },
            _ => None,
        };
        proof {
            let full = spec_block_missing_else(*sm, ctxt, stmts, 0);
            let done = spec_block_missing_else(*sm, ctxt, stmts, i as int);
            let rest = spec_block_missing_else(*sm, ctxt, stmts, i + 1);
            match &found {
                Some(f) => {
                    assert(done == seq![(f.lint_span, gfirst)] + rest);
                    assert(done.len() == 1 + rest.len());
                    assert(done[0] == (f.lint_span, gfirst));
                    assert(done[0] == full[out@.len() as int]);
                    assert(forall|j: int| 0 <= j < rest.len() ==> #[trigger] rest[j] == done[
                        j + 1
                    ]);
                },
                None => {
                    assert(done =~= rest);
                },
            }
        }
        match found {
            Some(f) => {
                out.push(f);
            },
            None => {},
        }
        i += 1;
    }
    out
}

} // verus!
