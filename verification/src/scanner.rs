//! A restartable scanner that splits raw source bytes into lexical tokens.
//!
//! The token sequence covers the whole input with no gaps and no overlaps;
//! whitespace and comments are tokens like any other, because callers count
//! newlines and detect comments explicitly. An unterminated block comment is
//! not an error: it becomes a token whose text runs to the end of the input,
//! so scanning malformed text still produces a usable sequence.
//!
//! Identifiers and whitespace are recognized over the ASCII range; any other
//! byte stands alone as an [`TokenKind::Other`] token and is compared by text
//! only.

use vstd::prelude::*;

verus! {

/// The classification of one token.
#[derive(Clone, Copy, PartialEq, Eq, Structural, Debug)]
pub enum TokenKind {
    Ident,
    Whitespace,
    LineComment,
    BlockComment { terminated: bool },
    Other,
}

/// One token: its kind and the byte range `[start, start + len)` it covers.
#[derive(Clone, Copy, PartialEq, Eq, Structural, Debug)]
pub struct Token {
    pub kind: TokenKind,
    pub start: usize,
    pub len: usize,
}

pub open spec fn is_whitespace_byte(b: u8) -> bool {
    b == 32 || b == 9 || b == 10 || b == 13 || b == 11 || b == 12
}

pub open spec fn is_ident_start_byte(b: u8) -> bool {
    (97 <= b <= 122) || (65 <= b <= 90) || b == 95
}

pub open spec fn is_ident_continue_byte(b: u8) -> bool {
    is_ident_start_byte(b) || (48 <= b <= 57)
}

pub fn whitespace_byte(b: u8) -> (r: bool)
    ensures
        r == is_whitespace_byte(b),
{
    b == 32 || b == 9 || b == 10 || b == 13 || b == 11 || b == 12
}

pub fn ident_start_byte(b: u8) -> (r: bool)
    ensures
        r == is_ident_start_byte(b),
{
    (97 <= b && b <= 122) || (65 <= b && b <= 90) || b == 95
}

pub fn ident_continue_byte(b: u8) -> (r: bool)
    ensures
        r == is_ident_continue_byte(b),
{
    ident_start_byte(b) || (48 <= b && b <= 57)
}

/// Whether a line comment opens at position `i`.
pub open spec fn starts_line_comment(s: Seq<u8>, i: int) -> bool {
    i + 1 < s.len() && s[i] == 47 && s[i + 1] == 47
}

/// Whether a block comment opens at position `i`.
pub open spec fn starts_block_comment(s: Seq<u8>, i: int) -> bool {
    i + 1 < s.len() && s[i] == 47 && s[i + 1] == 42
}

/// The end of a line comment scanned from `j`: the next newline, or the end
/// of the input. The newline itself is not part of the comment.
pub open spec fn line_comment_end(s: Seq<u8>, j: int) -> int
    decreases s.len() - j,
{
    if j < 0 || j >= s.len() || s[j] == 10 {
        j
    } else {
        line_comment_end(s, j + 1)
    }
}

/// The end of a whitespace run scanned from `j`.
pub open spec fn whitespace_end(s: Seq<u8>, j: int) -> int
    decreases s.len() - j,
{
    if j < 0 || j >= s.len() || !is_whitespace_byte(s[j]) {
        j
    } else {
        whitespace_end(s, j + 1)
    }
}

/// The end of an identifier scanned from `j`.
pub open spec fn ident_end(s: Seq<u8>, j: int) -> int
    decreases s.len() - j,
{
    if j < 0 || j >= s.len() || !is_ident_continue_byte(s[j]) {
        j
    } else {
        ident_end(s, j + 1)
    }
}

/// The end of a block comment whose body starts at `j` with `depth` comment
/// openers still unclosed. Block comments nest; an unclosed comment runs to
/// the end of the input.
pub open spec fn block_comment_end(s: Seq<u8>, j: int, depth: int) -> int
    decreases s.len() - j,
{
    if j < 0 || j >= s.len() {
        s.len() as int
    } else if j + 1 < s.len() && s[j] == 42 && s[j + 1] == 47 {
        if depth <= 1 {
            j + 2
        } else {
            block_comment_end(s, j + 2, depth - 1)
        }
    } else if j + 1 < s.len() && s[j] == 47 && s[j + 1] == 42 {
        block_comment_end(s, j + 2, depth + 1)
    } else {
        block_comment_end(s, j + 1, depth)
    }
}

/// Whether the block comment scan starting at `j` finds all its closers.
pub open spec fn block_comment_terminated(s: Seq<u8>, j: int, depth: int) -> bool
    decreases s.len() - j,
{
    if j < 0 || j >= s.len() {
        false
    } else if j + 1 < s.len() && s[j] == 42 && s[j + 1] == 47 {
        if depth <= 1 {
            true
        } else {
            block_comment_terminated(s, j + 2, depth - 1)
        }
    } else if j + 1 < s.len() && s[j] == 47 && s[j + 1] == 42 {
        block_comment_terminated(s, j + 2, depth + 1)
    } else {
        block_comment_terminated(s, j + 1, depth)
    }
}

/// The kind of the token that starts at position `i`.
pub open spec fn token_kind_at(s: Seq<u8>, i: int) -> TokenKind {
    if starts_line_comment(s, i) {
        TokenKind::LineComment
    } else if starts_block_comment(s, i) {
        TokenKind::BlockComment { terminated: block_comment_terminated(s, i + 2, 1) }
    } else if is_whitespace_byte(s[i]) {
        TokenKind::Whitespace
    } else if is_ident_start_byte(s[i]) {
        TokenKind::Ident
    } else {
        TokenKind::Other
    }
}

/// The end of the token that starts at position `i`.
pub open spec fn token_end_at(s: Seq<u8>, i: int) -> int {
    if starts_line_comment(s, i) {
        line_comment_end(s, i + 2)
    } else if starts_block_comment(s, i) {
        block_comment_end(s, i + 2, 1)
    } else if is_whitespace_byte(s[i]) {
        whitespace_end(s, i + 1)
    } else if is_ident_start_byte(s[i]) {
        ident_end(s, i + 1)
    } else {
        i + 1
    }
}

proof fn lemma_line_comment_end_bounds(s: Seq<u8>, j: int)
    requires
        0 <= j <= s.len(),
    ensures
        j <= line_comment_end(s, j) <= s.len(),
    decreases s.len() - j,
{
    if !(j >= s.len() || s[j] == 10) {
        lemma_line_comment_end_bounds(s, j + 1);
    }
}

proof fn lemma_whitespace_end_bounds(s: Seq<u8>, j: int)
    requires
        0 <= j <= s.len(),
    ensures
        j <= whitespace_end(s, j) <= s.len(),
    decreases s.len() - j,
{
    if !(j >= s.len() || !is_whitespace_byte(s[j])) {
        lemma_whitespace_end_bounds(s, j + 1);
    }
}

proof fn lemma_ident_end_bounds(s: Seq<u8>, j: int)
    requires
        0 <= j <= s.len(),
    ensures
        j <= ident_end(s, j) <= s.len(),
    decreases s.len() - j,
{
    if !(j >= s.len() || !is_ident_continue_byte(s[j])) {
        lemma_ident_end_bounds(s, j + 1);
    }
}

proof fn lemma_block_comment_end_bounds(s: Seq<u8>, j: int, depth: int)
    requires
        0 <= j <= s.len(),
    ensures
        j <= block_comment_end(s, j, depth) <= s.len(),
    decreases s.len() - j,
{
    if j < s.len() {
        if j + 1 < s.len() && s[j] == 42 && s[j + 1] == 47 {
            if depth > 1 {
                lemma_block_comment_end_bounds(s, j + 2, depth - 1);
            }
        } else if j + 1 < s.len() && s[j] == 47 && s[j + 1] == 42 {
            lemma_block_comment_end_bounds(s, j + 2, depth + 1);
        } else {
            lemma_block_comment_end_bounds(s, j + 1, depth);
        }
    }
}

/// Every token is non-empty and stops at or before the end of the input.
pub proof fn lemma_token_end_bounds(s: Seq<u8>, i: int)
    requires
        0 <= i < s.len(),
    ensures
        i < token_end_at(s, i) <= s.len(),
{
    if starts_line_comment(s, i) {
        lemma_line_comment_end_bounds(s, i + 2);
        assert(line_comment_end(s, i + 2) >= i + 2);
    } else if starts_block_comment(s, i) {
        lemma_block_comment_end_bounds(s, i + 2, 1);
        assert(block_comment_end(s, i + 2, 1) >= i + 2);
    } else if is_whitespace_byte(s[i]) {
        lemma_whitespace_end_bounds(s, i + 1);
    } else if is_ident_start_byte(s[i]) {
        lemma_ident_end_bounds(s, i + 1);
    }
}

/// The token sequence of `s` from position `i` on: each token starts where
/// the previous one ended.
pub open spec fn spec_tokens(s: Seq<u8>, i: int) -> Seq<Token>
    decreases s.len() - i,
    when 0 <= i <= s.len() <= usize::MAX
    via spec_tokens_dec
{
    if i >= s.len() {
        Seq::empty()
    } else {
        seq![
            Token {
                kind: token_kind_at(s, i),
                start: i as usize,
                len: (token_end_at(s, i) - i) as usize,
            },
        ] + spec_tokens(s, token_end_at(s, i))
    }
}

#[via_fn]
proof fn spec_tokens_dec(s: Seq<u8>, i: int) {
    if i < s.len() {
        lemma_token_end_bounds(s, i);
    }
}

/// The text a token covers.
pub open spec fn token_text(s: Seq<u8>, t: Token) -> Seq<u8> {
    s.subrange(t.start as int, t.start + t.len)
}

/// The concatenation of the texts of a token sequence, in order.
pub open spec fn concat_token_texts(s: Seq<u8>, toks: Seq<Token>) -> Seq<u8>
    decreases toks.len(),
{
    if toks.len() == 0 {
        Seq::empty()
    } else {
        token_text(s, toks[0]) + concat_token_texts(s, toks.drop_first())
    }
}

proof fn lemma_concat_from(s: Seq<u8>, i: int)
    requires
        0 <= i <= s.len() <= usize::MAX,
    ensures
        concat_token_texts(s, spec_tokens(s, i)) == s.subrange(i, s.len() as int),
    decreases s.len() - i,
{
    if i >= s.len() {
        assert(concat_token_texts(s, spec_tokens(s, i)) =~= s.subrange(i, s.len() as int));
    } else {
        let end = token_end_at(s, i);
        lemma_token_end_bounds(s, i);
        lemma_concat_from(s, end);
        let toks = spec_tokens(s, i);
        assert(toks.drop_first() =~= spec_tokens(s, end));
        assert(token_text(s, toks[0]) =~= s.subrange(i, end));
        assert(s.subrange(i, end) + s.subrange(end, s.len() as int)
            =~= s.subrange(i, s.len() as int));
    }
}

/// Lossless scanning: concatenating the texts of all tokens of `s`, in
/// order, reproduces `s` exactly — no gaps and no overlaps.
pub proof fn lemma_tokens_lossless(s: Seq<u8>)
    requires
        s.len() <= usize::MAX,
    ensures
        concat_token_texts(s, spec_tokens(s, 0)) == s,
{
    lemma_concat_from(s, 0);
    assert(s.subrange(0, s.len() as int) =~= s);
}

/// Every token in the sequence lies within the input and is non-empty.
pub proof fn lemma_spec_tokens_wf(s: Seq<u8>, i: int)
    requires
        0 <= i <= s.len() <= usize::MAX,
    ensures
        forall|k: int| 0 <= k < spec_tokens(s, i).len() ==> {
            let t = #[trigger] spec_tokens(s, i)[k];
            &&& i <= t.start
            &&& t.len > 0
            &&& t.start + t.len <= s.len()
        },
    decreases s.len() - i,
{
    if i < s.len() {
        let end = token_end_at(s, i);
        lemma_token_end_bounds(s, i);
        lemma_spec_tokens_wf(s, end);
        let toks = spec_tokens(s, i);
        assert forall|k: int| 0 <= k < toks.len() implies {
            let t = #[trigger] toks[k];
            &&& i <= t.start
            &&& t.len > 0
            &&& t.start + t.len <= s.len()
        } by {
            if k > 0 {
                assert(toks[k] == spec_tokens(s, end)[k - 1]);
            }
        }
    }
}

/// Scan the single token that starts at byte `i` of `src`.
fn scan_token(src: &[u8], i: usize) -> (t: Token)
    requires
        i < src@.len(),
    ensures
        t.kind == token_kind_at(src@, i as int),
        t.start == i,
        i + t.len == token_end_at(src@, i as int),
        i < i + t.len <= src@.len(),
{
    proof {
        lemma_token_end_bounds(src@, i as int);
    }
    let n = src.len();
    if i + 1 < n && src[i] == 47 && src[i + 1] == 47 {
        let mut j = i + 2;
        while j < n && src[j] != 10
            invariant
                i + 2 <= j <= n,
                n == src@.len(),
                line_comment_end(src@, i + 2) == line_comment_end(src@, j as int),
            decreases n - j,
        {
            j += 1;
        }
        Token { kind: TokenKind::LineComment, start: i, len: j - i }
    } else if i + 1 < n && src[i] == 47 && src[i + 1] == 42 {
        let mut j = i + 2;
        let mut depth: usize = 1;
        let mut end = n;
        let mut terminated = false;
        let mut done = false;
        while !done && j < n
            invariant
                i + 2 <= j <= n,
                n == src@.len(),
                1 <= depth,
                2 * depth <= j,
                !done ==> block_comment_end(src@, i + 2, 1)
                    == block_comment_end(src@, j as int, depth as int),
                !done ==> block_comment_terminated(src@, i + 2, 1)
                    == block_comment_terminated(src@, j as int, depth as int),
                done ==> end == block_comment_end(src@, i + 2, 1),
                done ==> terminated == block_comment_terminated(src@, i + 2, 1),
                done ==> end <= n,
            decreases n - j + (if done { 0int } else { 1int }),
        {
            if j + 1 < n && src[j] == 42 && src[j + 1] == 47 {
                if depth == 1 {
                    end = j + 2;
                    terminated = true;
                    done = true;
                } else {
                    depth -= 1;
                    j += 2;
                }
            } else if j + 1 < n && src[j] == 47 && src[j + 1] == 42 {
                depth += 1;
                j += 2;
            } else {
                j += 1;
            }
        }
        if !done {
            end = n;
            terminated = false;
        }
        Token { kind: TokenKind::BlockComment { terminated }, start: i, len: end - i }
    } else if whitespace_byte(src[i]) {
        let mut j = i + 1;
        while j < n && whitespace_byte(src[j])
            invariant
                i + 1 <= j <= n,
                n == src@.len(),
                whitespace_end(src@, i + 1) == whitespace_end(src@, j as int),
            decreases n - j,
        {
            j += 1;
        }
        Token { kind: TokenKind::Whitespace, start: i, len: j - i }
    } else if ident_start_byte(src[i]) {
        let mut j = i + 1;
        while j < n && ident_continue_byte(src[j])
            invariant
                i + 1 <= j <= n,
                n == src@.len(),
                ident_end(src@, i + 1) == ident_end(src@, j as int),
            decreases n - j,
        {
            j += 1;
        }
        Token { kind: TokenKind::Ident, start: i, len: j - i }
    } else {
        Token { kind: TokenKind::Other, start: i, len: 1 }
    }
}

/// Scan `src` into its complete token sequence.
///
/// The result covers the whole input: the first token starts at byte 0, each
/// token starts where the one before it ended, and the last token ends at
/// `src.len()`; see [`lemma_tokens_lossless`].
pub fn tokenize(src: &[u8]) -> (toks: Vec<Token>)
    ensures
        toks@ == spec_tokens(src@, 0),
{
    let mut toks: Vec<Token> = Vec::new();
    let mut i: usize = 0;
    while i < src.len()
        invariant
            0 <= i <= src@.len(),
            spec_tokens(src@, 0) == toks@ + spec_tokens(src@, i as int),
        decreases src@.len() - i,
    {
        let t = scan_token(src, i);
        proof {
            assert(spec_tokens(src@, i as int)
                == seq![t] + spec_tokens(src@, (i + t.len) as int));
            assert(toks@ + spec_tokens(src@, i as int)
                =~= toks@.push(t) + spec_tokens(src@, (i + t.len) as int));
        }
        i = i + t.len;
        toks.push(t);
    }
    proof {
        assert(spec_tokens(src@, i as int) =~= Seq::<Token>::empty());
        assert(toks@ + Seq::<Token>::empty() =~= toks@);
    }
    toks
}

/// The text of one token of `src`, as a fresh byte vector.
pub fn token_text_of(src: &[u8], t: &Token) -> (r: Vec<u8>)
    requires
        t.start + t.len <= src@.len(),
    ensures
        r@ == token_text(src@, *t),
{
    let n = src.len();
    let mut r: Vec<u8> = Vec::new();
    let mut k: usize = 0;
    while k < t.len
        invariant
            0 <= k <= t.len,
            t.start + t.len <= n,
            n == src@.len(),
            r@ == src@.subrange(t.start as int, t.start + k),
        decreases t.len - k,
    {
        let b = src[t.start + k];
        r.push(b);
        proof {
            assert(r@ =~= src@.subrange(t.start as int, t.start + k + 1));
        }
        k += 1;
    }
    r
}

} // verus!
