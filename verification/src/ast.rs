//! The structural shape of syntax nodes, as the external tree builder hands
//! it over: each node carries its span, its kind with its immediate
//! children, and an opaque tag for its inferred type.
//!
//! Names and symbols are byte strings; types are opaque interned tags of
//! which only "is an unsigned integer" is exposed, because that is all the
//! checks read.

use vstd::prelude::*;

use crate::span::Span;

verus! {

/// An opaque interned type: an identity plus the one property checks read.
#[derive(Clone, Copy, PartialEq, Eq, Structural, Debug)]
pub enum TyTag {
    /// An unsigned integer type with its interned identity.
    Uint { id: usize },
    /// Any other known type with its interned identity.
    Other { id: usize },
    /// No type information available.
    Unknown,
}

/// How a string literal was written.
#[derive(Clone, Copy, PartialEq, Eq, Structural, Debug)]
pub enum StrStyle {
    Cooked,
    Raw { hashes: usize },
}

/// The suffix of an integer literal, as far as the patterns care.
#[derive(Clone, Copy, PartialEq, Eq, Structural, Debug)]
pub enum IntSuffix {
    Isize,
    Usize,
    OtherOrNone,
}

/// The kind of a literal, without its value: the patterns only need the
/// shape of what was written.
#[derive(Clone, Copy, PartialEq, Eq, Structural, Debug)]
pub enum LitKind {
    Str { style: StrStyle },
    ByteStr,
    Byte,
    Char,
    Int { suffix: IntSuffix },
    Float,
    Bool { value: bool },
    OtherLit,
}

#[derive(Clone, Copy, PartialEq, Eq, Structural, Debug)]
pub enum UnOp {
    Deref,
    Not,
    Neg,
}

#[derive(Clone, Copy, PartialEq, Eq, Structural, Debug)]
pub enum BinOpKind {
    Add,
    Sub,
    Mul,
    Div,
    Rem,
    And,
    Or,
    BitXor,
    BitAnd,
    BitOr,
    Shl,
    Shr,
    Eq,
    Lt,
    Le,
    Ne,
    Ge,
    Gt,
}

/// A binary operator together with the span of its token.
pub struct BinOp {
    pub node: BinOpKind,
    pub span: Span,
}

#[derive(Clone, Copy, PartialEq, Eq, Structural, Debug)]
pub enum LoopSource {
    Loop,
    While,
    ForLoop,
}

#[derive(Clone, Copy, PartialEq, Eq, Structural, Debug)]
pub enum MatchSource {
    Normal,
    ForLoopDesugar,
    TryDesugar,
    AwaitDesugar,
}

#[derive(Clone, Copy, PartialEq, Eq, Structural, Debug)]
pub enum YieldSource {
    Await,
    Yield,
}

/// One segment of a path: its name and whether it carries generic
/// arguments.
pub struct PathSegment {
    pub name: Vec<u8>,
    pub has_args: bool,
}

/// A possibly qualified path.
pub enum QPath {
    Resolved { has_self_ty: bool, segments: Vec<PathSegment> },
    TypeRelative { name: Vec<u8> },
    LangItem,
}

/// A match arm: its span and its body, if it has one.
pub struct Arm {
    pub span: Span,
    pub body: Option<Box<Expr>>,
}

/// A block of statements.
pub struct Block {
    pub span: Span,
    pub stmts: Vec<Stmt>,
    pub is_unsafe: bool,
}

pub struct Stmt {
    pub span: Span,
    pub kind: StmtKind,
}

pub enum StmtKind {
    /// An expression statement without a trailing semicolon.
    Expr(Box<Expr>),
    /// An expression statement with a trailing semicolon.
    Semi(Box<Expr>),
    /// Any other statement.
    Other,
}

/// A syntax node: its source span, its structural kind, and its type tag.
pub struct Expr {
    pub span: Span,
    pub kind: ExprKind,
    pub ty: TyTag,
}

#[allow(inconsistent_fields)]
pub enum ExprKind {
    Lit(LitKind),
    Path(QPath),
    Boxed(Box<Expr>),
    ConstBlock,
    Tup(Vec<Expr>),
    Unary(UnOp, Box<Expr>),
    Array(Vec<Expr>),
    Repeat(Box<Expr>),
    Call(Box<Expr>, Vec<Expr>),
    /// The receiver is the first element of the argument list.
    MethodCall(Vec<Expr>),
    Binary(BinOp, Box<Expr>, Box<Expr>),
    /// Assignee, value, and the span of the `=` token.
    Assign(Box<Expr>, Box<Expr>, Span),
    AssignOp(BinOp, Box<Expr>, Box<Expr>),
    DropTemps(Box<Expr>),
    Cast(Box<Expr>),
    TypeAscription(Box<Expr>),
    Let(Box<Expr>),
    If(Box<Expr>, Block, Option<Box<Expr>>),
    Loop { body: Block, label: Option<Vec<u8>>, source: LoopSource },
    Match { scrutinee: Box<Expr>, arms: Vec<Arm>, source: MatchSource },
    Closure { body: Box<Expr> },
    BlockExpr { block: Block, label: Option<Vec<u8>> },
    Field(Box<Expr>, Vec<u8>),
    Index(Box<Expr>, Box<Expr>),
    AddrOf(Box<Expr>),
    Break { label: Option<Vec<u8>>, value: Option<Box<Expr>> },
    Continue { label: Option<Vec<u8>> },
    Ret(Option<Box<Expr>>),
    Struct(QPath),
    Yield(Box<Expr>, YieldSource),
    Paren(Box<Expr>),
    OtherExpr,
}

/// Structural path equality: same shape, same segment names, same
/// qualification.
pub open spec fn spec_eq_qpath(a: QPath, b: QPath) -> bool {
    match (a, b) {
        (
            QPath::Resolved { has_self_ty: s1, segments: g1 },
            QPath::Resolved { has_self_ty: s2, segments: g2 },
        ) => {
            &&& s1 == s2
            &&& g1@.len() == g2@.len()
            &&& forall|i: int| 0 <= i < g1@.len() ==> (#[trigger] g1@[i]).name@ == g2@[i].name@
                && g1@[i].has_args == g2@[i].has_args
        },
        (QPath::TypeRelative { name: n1 }, QPath::TypeRelative { name: n2 }) => n1@ == n2@,
        (QPath::LangItem, QPath::LangItem) => true,
        _ => false,
    }
}

/// Structural equality of two nodes, ignoring spans and type tags.
///
/// Only shapes whose value is fully determined by the tree are compared:
/// literals, paths, unary operations, references, field accesses, indexing
/// and binary operations. Any other shape compares unequal, so that no
/// check ever fires on an equality this model cannot establish.
pub open spec fn spec_eq_expr(a: Expr, b: Expr) -> bool
    decreases a,
{
    match (a.kind, b.kind) {
        (ExprKind::Lit(l1), ExprKind::Lit(l2)) => l1 == l2,
        (ExprKind::Path(p1), ExprKind::Path(p2)) => spec_eq_qpath(p1, p2),
        (ExprKind::Unary(o1, e1), ExprKind::Unary(o2, e2)) => o1 == o2 && spec_eq_expr(*e1, *e2),
        (ExprKind::AddrOf(e1), ExprKind::AddrOf(e2)) => spec_eq_expr(*e1, *e2),
        (ExprKind::Field(e1, n1), ExprKind::Field(e2, n2)) => n1@ == n2@ && spec_eq_expr(
            *e1,
            *e2,
        ),
        (ExprKind::Index(e1, i1), ExprKind::Index(e2, i2)) => spec_eq_expr(*e1, *e2)
            && spec_eq_expr(*i1, *i2),
        (ExprKind::Binary(o1, l1, r1), ExprKind::Binary(o2, l2, r2)) => o1.node == o2.node
            && spec_eq_expr(*l1, *l2) && spec_eq_expr(*r1, *r2),
        _ => false,
    }
}

/// Whether evaluating the node can have no side effect: only such nodes
/// may be reasoned about as repeatable values.
pub open spec fn spec_is_pure(e: Expr) -> bool
    decreases e,
{
    match e.kind {
        ExprKind::Lit(_) => true,
        ExprKind::Path(_) => true,
        ExprKind::Unary(_, inner) => spec_is_pure(*inner),
        ExprKind::AddrOf(inner) => spec_is_pure(*inner),
        ExprKind::Field(inner, _) => spec_is_pure(*inner),
        ExprKind::Cast(inner) => spec_is_pure(*inner),
        ExprKind::DropTemps(inner) => spec_is_pure(*inner),
        ExprKind::Index(base, idx) => spec_is_pure(*base) && spec_is_pure(*idx),
        ExprKind::Binary(_, l, r) => spec_is_pure(*l) && spec_is_pure(*r),
        _ => false,
    }
}

/// A span fit for use against a context tree with `nc` recorded
/// expansion steps.
pub open spec fn spec_wf_span(s: Span, nc: int) -> bool {
    s.wf() && s.ctxt <= nc
}

/// Every span in the node is ordered and names a recorded context. The
/// tree builder establishes this when it hands a tree over.
pub open spec fn spec_wf_expr(e: Expr, nc: int) -> bool
    decreases e,
{
    &&& spec_wf_span(e.span, nc)
    &&& match e.kind {
        ExprKind::Lit(_) => true,
        ExprKind::Path(_) => true,
        ExprKind::Boxed(inner) => spec_wf_expr(*inner, nc),
        ExprKind::ConstBlock => true,
        ExprKind::Tup(items) => spec_wf_exprs(items@, nc),
        ExprKind::Unary(_, inner) => spec_wf_expr(*inner, nc),
        ExprKind::Array(items) => spec_wf_exprs(items@, nc),
        ExprKind::Repeat(inner) => spec_wf_expr(*inner, nc),
        ExprKind::Call(callee, args) => spec_wf_expr(*callee, nc) && spec_wf_exprs(args@, nc),
        ExprKind::MethodCall(args) => spec_wf_exprs(args@, nc),
        ExprKind::Binary(op, l, r) => spec_wf_span(op.span, nc) && spec_wf_expr(*l, nc)
            && spec_wf_expr(*r, nc),
        ExprKind::Assign(l, r, op_span) => spec_wf_span(op_span, nc) && spec_wf_expr(*l, nc)
            && spec_wf_expr(*r, nc),
        ExprKind::AssignOp(op, l, r) => spec_wf_span(op.span, nc) && spec_wf_expr(*l, nc)
            && spec_wf_expr(*r, nc),
        ExprKind::DropTemps(inner) => spec_wf_expr(*inner, nc),
        ExprKind::Cast(inner) => spec_wf_expr(*inner, nc),
        ExprKind::TypeAscription(inner) => spec_wf_expr(*inner, nc),
        ExprKind::Let(init) => spec_wf_expr(*init, nc),
        ExprKind::If(cond, then, els) => spec_wf_expr(*cond, nc) && spec_wf_block(then, nc)
            && match els {
            Some(e2) => spec_wf_expr(*e2, nc),
            None => true,
        },
        ExprKind::Loop { body, label: _, source: _ } => spec_wf_block(body, nc),
        ExprKind::Match { scrutinee, arms, source: _ } => spec_wf_expr(*scrutinee, nc)
            && spec_wf_arms(arms@, nc),
        ExprKind::Closure { body } => spec_wf_expr(*body, nc),
        ExprKind::BlockExpr { block, label: _ } => spec_wf_block(block, nc),
        ExprKind::Field(base, _) => spec_wf_expr(*base, nc),
        ExprKind::Index(base, idx) => spec_wf_expr(*base, nc) && spec_wf_expr(*idx, nc),
        ExprKind::AddrOf(inner) => spec_wf_expr(*inner, nc),
        ExprKind::Break { label: _, value } => match value {
            Some(inner) => spec_wf_expr(*inner, nc),
            None => true,
        },
        ExprKind::Continue { label: _ } => true,
        ExprKind::Ret(value) => match value {
            Some(inner) => spec_wf_expr(*inner, nc),
            None => true,
        },
        ExprKind::Struct(_) => true,
        ExprKind::Yield(inner, _) => spec_wf_expr(*inner, nc),
        ExprKind::Paren(inner) => spec_wf_expr(*inner, nc),
        ExprKind::OtherExpr => true,
    }
}

pub open spec fn spec_wf_exprs(items: Seq<Expr>, nc: int) -> bool
    decreases items,
{
    if items.len() == 0 {
        true
    } else {
        spec_wf_expr(items[0], nc) && spec_wf_exprs(items.drop_first(), nc)
    }
}

pub open spec fn spec_wf_block(b: Block, nc: int) -> bool
    decreases b,
{
    spec_wf_span(b.span, nc) && spec_wf_stmts(b.stmts@, nc)
}

pub open spec fn spec_wf_stmts(stmts: Seq<Stmt>, nc: int) -> bool
    decreases stmts,
{
    if stmts.len() == 0 {
        true
    } else {
        spec_wf_stmt(stmts[0], nc) && spec_wf_stmts(stmts.drop_first(), nc)
    }
}

pub open spec fn spec_wf_stmt(s: Stmt, nc: int) -> bool
    decreases s,
{
    &&& spec_wf_span(s.span, nc)
    &&& match s.kind {
        StmtKind::Expr(e) => spec_wf_expr(*e, nc),
        StmtKind::Semi(e) => spec_wf_expr(*e, nc),
        StmtKind::Other => true,
    }
}

pub open spec fn spec_wf_arms(arms: Seq<Arm>, nc: int) -> bool
    decreases arms,
{
    if arms.len() == 0 {
        true
    } else {
        spec_wf_arm(arms[0], nc) && spec_wf_arms(arms.drop_first(), nc)
    }
}

pub open spec fn spec_wf_arm(a: Arm, nc: int) -> bool
    decreases a,
{
    &&& spec_wf_span(a.span, nc)
    &&& match a.body {
        Some(e) => spec_wf_expr(*e, nc),
        None => true,
    }
}

/// An indexed element of a well-formed sequence is well formed.
pub proof fn lemma_wf_exprs_index(items: Seq<Expr>, nc: int, i: int)
    requires
        spec_wf_exprs(items, nc),
        0 <= i < items.len(),
    ensures
        spec_wf_expr(items[i], nc),
    decreases i,
{
    if i > 0 {
        lemma_wf_exprs_index(items.drop_first(), nc, i - 1);
        assert(items.drop_first()[i - 1] == items[i]);
    }
}

/// An indexed statement of a well-formed sequence is well formed.
pub proof fn lemma_wf_stmts_index(stmts: Seq<Stmt>, nc: int, i: int)
    requires
        spec_wf_stmts(stmts, nc),
        0 <= i < stmts.len(),
    ensures
        spec_wf_stmt(stmts[i], nc),
    decreases i,
{
    if i > 0 {
        lemma_wf_stmts_index(stmts.drop_first(), nc, i - 1);
        assert(stmts.drop_first()[i - 1] == stmts[i]);
    }
}

/// An indexed arm of a well-formed sequence is well formed.
pub proof fn lemma_wf_arms_index(arms: Seq<Arm>, nc: int, i: int)
    requires
        spec_wf_arms(arms, nc),
        0 <= i < arms.len(),
    ensures
        spec_wf_arm(arms[i], nc),
    decreases i,
{
    if i > 0 {
        lemma_wf_arms_index(arms.drop_first(), nc, i - 1);
        assert(arms.drop_first()[i - 1] == arms[i]);
    }
}

/// Decide structural path equality.
pub fn eq_qpath(a: &QPath, b: &QPath) -> (r: bool)
    ensures
        r == spec_eq_qpath(*a, *b),
{
    match (a, b) {
        (
            QPath::Resolved { has_self_ty: s1, segments: g1 },
            QPath::Resolved { has_self_ty: s2, segments: g2 },
        ) => {
            if *s1 != *s2 || g1.len() != g2.len() {
                return false;
            }
            let n = g1.len();
            let mut i: usize = 0;
            #[verifier::loop_isolation(false)]
            while i < n
                invariant
                    0 <= i <= n,
                    n == g1@.len() && n == g2@.len(),
                    forall|j: int| 0 <= j < i ==> (#[trigger] g1@[j]).name@ == g2@[j].name@
                        && g1@[j].has_args == g2@[j].has_args,
                decreases n - i,
            {
                let s1seg = &g1[i];
                let s2seg = &g2[i];
                if !crate::bytes_eq(s1seg.name.as_slice(), s2seg.name.as_slice())
                    || s1seg.has_args != s2seg.has_args {
                    return false;
                }
                i += 1;
            }
            true
        },
        (QPath::TypeRelative { name: n1 }, QPath::TypeRelative { name: n2 }) => crate::bytes_eq(
            n1.as_slice(),
            n2.as_slice(),
        ),
        (QPath::LangItem, QPath::LangItem) => true,
        _ => false,
    }
}

/// Decide structural equality of two nodes, ignoring spans and type tags.
pub fn eq_expr(a: &Expr, b: &Expr) -> (r: bool)
    ensures
        r == spec_eq_expr(*a, *b),
    decreases *a,
{
    match (&a.kind, &b.kind) {
        (ExprKind::Lit(l1), ExprKind::Lit(l2)) => l1 == l2,
        (ExprKind::Path(p1), ExprKind::Path(p2)) => eq_qpath(p1, p2),
        (ExprKind::Unary(o1, e1), ExprKind::Unary(o2, e2)) => o1 == o2 && eq_expr(e1, e2),
        (ExprKind::AddrOf(e1), ExprKind::AddrOf(e2)) => eq_expr(e1, e2),
        (ExprKind::Field(e1, n1), ExprKind::Field(e2, n2)) => crate::bytes_eq(
            n1.as_slice(),
            n2.as_slice(),
        ) && eq_expr(e1, e2),
        (ExprKind::Index(e1, i1), ExprKind::Index(e2, i2)) => eq_expr(e1, e2) && eq_expr(i1, i2),
        (ExprKind::Binary(o1, l1, r1), ExprKind::Binary(o2, l2, r2)) => o1.node == o2.node
            && eq_expr(l1, l2) && eq_expr(r1, r2),
        _ => false,
    }
}

/// Decide whether a node is free of side effects.
pub fn is_pure(e: &Expr) -> (r: bool)
    ensures
        r == spec_is_pure(*e),
    decreases *e,
{
    match &e.kind {
        ExprKind::Lit(_) => true,
        ExprKind::Path(_) => true,
        ExprKind::Unary(_, inner) => is_pure(inner),
        ExprKind::AddrOf(inner) => is_pure(inner),
        ExprKind::Field(inner, _) => is_pure(inner),
        ExprKind::Cast(inner) => is_pure(inner),
        ExprKind::DropTemps(inner) => is_pure(inner),
        ExprKind::Index(base, idx) => is_pure(base) && is_pure(idx),
        ExprKind::Binary(_, l, r) => is_pure(l) && is_pure(r),
        _ => false,
    }
}

} // verus!
