//! Small textual helpers over raw source bytes.

use vstd::prelude::*;

use crate::scanner::{is_whitespace_byte, spec_tokens, token_text, tokenize, TokenKind};

verus! {

/// The byte offset of the `fn` keyword in a function signature that names
/// no ABI: scanning the signature's identifier tokens left to right, the
/// position where `fn` stands, unless an `extern` came first. This is the
/// place where an explicit ABI has to be inserted.
pub open spec fn spec_fn_without_abi(s: Seq<u8>, toks: Seq<crate::scanner::Token>, i: int, found_extern: bool) -> Option<int>
    decreases toks.len() - i,
{
    if i < 0 || i >= toks.len() {
        None
    } else {
        let t = toks[i];
        let text = token_text(s, t);
        if t.kind is Ident && text == seq![102u8, 110u8] {
            if found_extern {
                None
            } else {
                Some(t.start as int)
            }
        } else if t.kind is Ident && text == seq![101u8, 120u8, 116u8, 101u8, 114u8, 110u8] {
            spec_fn_without_abi(s, toks, i + 1, true)
        } else {
            spec_fn_without_abi(s, toks, i + 1, found_extern)
        }
    }
}

/// Find where an explicit ABI must be inserted in a function signature
/// that declares none: just before its `fn` keyword. `None` when the
/// signature already reads `extern` before `fn`, or shows no `fn` at all.
pub fn fn_without_abi_position(sig: &[u8]) -> (r: Option<usize>)
    ensures
        match r {
            Some(pos) => spec_fn_without_abi(sig@, spec_tokens(sig@, 0), 0, false) == Some(
                pos as int,
            ),
            None => spec_fn_without_abi(sig@, spec_tokens(sig@, 0), 0, false) is None,
        },
{
    let n_bytes = sig.len();
    let toks = tokenize(sig);
    let ghost s = sig@;
    let ghost all = spec_tokens(s, 0);
    proof {
        assert(s.len() == n_bytes);
        crate::scanner::lemma_spec_tokens_wf(s, 0);
    }
    let n = toks.len();
    let mut i: usize = 0;
    let mut found_extern = false;
    #[verifier::loop_isolation(false)]
    while i < n
        invariant
            0 <= i <= n,
            n == all.len(),
            toks@ == all,
            spec_fn_without_abi(s, all, 0, false) == spec_fn_without_abi(
                s,
                all,
                i as int,
                found_extern,
            ),
        decreases n - i,
    {
        let t = toks[i];
        if matches!(t.kind, TokenKind::Ident) {
            if token_matches(sig, t.start, t.len, &[102, 110]) {
                if found_extern {
                    return None;
                } else {
                    return Some(t.start);
                }
            } else if token_matches(sig, t.start, t.len, &[101, 120, 116, 101, 114, 110]) {
                found_extern = true;
            }
        }
        i += 1;
    }
    None
}

fn token_matches(src: &[u8], start: usize, len: usize, word: &[u8]) -> (r: bool)
    requires
        start + len <= src@.len(),
    ensures
        r == (src@.subrange(start as int, start + len) == word@),
{
    let ghost sub = src@.subrange(start as int, start + len);
    let total = src.len();
    proof {
        assert(total == src@.len());
    }
    if len != word.len() {
        proof {
            assert(sub.len() == len);
        }
        return false;
    }
    let mut k: usize = 0;
    #[verifier::loop_isolation(false)]
    while k < len
        invariant
            0 <= k <= len,
            forall|j: int| 0 <= j < k ==> src@[start + j] == word@[j],
        decreases len - k,
    {
        if src[start + k] != word[k] {
            proof {
                assert(sub[k as int] != word@[k as int]);
            }
            return false;
        }
        k += 1;
    }
    proof {
        assert(sub =~= word@);
    }
    true
}

/// Whether an identifier token occurs anywhere in the text.
pub open spec fn spec_has_ident_token(s: Seq<u8>, toks: Seq<crate::scanner::Token>, i: int) -> bool
    decreases toks.len() - i,
{
    if i < 0 || i >= toks.len() {
        false
    } else if toks[i].kind is Ident {
        true
    } else {
        spec_has_ident_token(s, toks, i + 1)
    }
}

/// Whether the text between a declaration's name and its end — its empty
/// brackets — really hides no fields: fields could still be spelled there
/// behind conditional compilation, and any identifier betrays one.
pub fn brackets_hide_no_fields(src: &[u8]) -> (r: bool)
    ensures
        r == !spec_has_ident_token(src@, spec_tokens(src@, 0), 0),
{
    let toks = tokenize(src);
    let ghost s = src@;
    let ghost all = spec_tokens(s, 0);
    let n = toks.len();
    let mut i: usize = 0;
    #[verifier::loop_isolation(false)]
    while i < n
        invariant
            0 <= i <= n,
            n == all.len(),
            toks@ == all,
            spec_has_ident_token(s, all, 0) == spec_has_ident_token(s, all, i as int),
        decreases n - i,
    {
        if matches!(toks[i].kind, TokenKind::Ident) {
            return false;
        }
        i += 1;
    }
    true
}

/// The start of the last `->` at or before position `i`, scanning down.
pub open spec fn spec_rfind_arrow(s: Seq<u8>, i: int) -> Option<int>
    decreases i + 1,
{
    if i < 0 {
        None
    } else if i + 1 < s.len() && s[i] == 45 && s[i + 1] == 62 {
        Some(i)
    } else {
        spec_rfind_arrow(s, i - 1)
    }
}

/// The position reached from `p` after stepping back over whitespace, never
/// stepping at or below position one.
pub open spec fn spec_back_over_ws(s: Seq<u8>, p: int) -> int
    decreases p,
{
    if p <= 1 || p > s.len() || !is_whitespace_byte(s[p - 1]) {
        p
    } else {
        spec_back_over_ws(s, p - 1)
    }
}

/// The position just before the last `->` of a function header, with any
/// whitespace before the arrow stepped over — the place where a return
/// type annotation would be inserted. `None` when there is no arrow.
pub fn position_before_rarrow(s: &[u8]) -> (r: Option<usize>)
    ensures
        ({
            let n = s@.len() as int;
            match spec_rfind_arrow(s@, n - 2) {
                Some(arrow) => r == Some(spec_back_over_ws(s@, arrow) as usize),
                None => r is None,
            }
        }),
{
    let n = s.len();
    if n < 2 {
        return None;
    }
    let mut i: usize = n - 1;
    let mut found: Option<usize> = None;
    while i > 0 && found.is_none()
        invariant
            0 <= i <= n - 1,
            n == s@.len(),
            n >= 2,
            match found {
                Some(a) => spec_rfind_arrow(s@, n - 2) == Some(a as int) && a <= n - 2,
                None => spec_rfind_arrow(s@, n - 2) == spec_rfind_arrow(s@, i - 1),
            },
        decreases i,
    {
        i -= 1;
        if s[i] == 45 && s[i + 1] == 62 {
            found = Some(i);
        }
    }
    match found {
        Some(arrow) => {
            proof {
                lemma_back_over_ws_bounds(s@, arrow as int);
            }
            let mut p = arrow;
            while p > 1 && whitespace_at(s, p - 1)
                invariant
                    0 <= p <= arrow < n,
                    n == s@.len(),
                    spec_back_over_ws(s@, arrow as int) == spec_back_over_ws(s@, p as int),
                decreases p,
            {
                p -= 1;
            }
            Some(p)
        },
        None => None,
    }
}

proof fn lemma_back_over_ws_bounds(s: Seq<u8>, p: int)
    requires
        0 <= p <= s.len(),
    ensures
        0 <= spec_back_over_ws(s, p) <= p,
    decreases p,
{
    if !(p <= 1 || !is_whitespace_byte(s[p - 1])) {
        lemma_back_over_ws_bounds(s, p - 1);
    }
}

fn whitespace_at(s: &[u8], k: usize) -> (r: bool)
    requires
        k < s@.len(),
    ensures
        r == is_whitespace_byte(s@[k as int]),
{
    let b = s[k];
    b == 32 || b == 9 || b == 10 || b == 13 || b == 11 || b == 12
}

/// Whether the two-byte sequence `a b` occurs somewhere in `l`.
pub open spec fn contains_pair(l: Seq<u8>, a: u8, b: u8) -> bool {
    exists|k: int| 0 <= k && k + 1 < l.len() && l[k] == a && #[trigger] l[k + 1] == b
}

/// The lines kept after removing block comments: a line containing `/*`
/// opens one nesting level and is dropped, a line containing `*/` closes
/// one and is dropped, and any other line is kept exactly when no level is
/// open.
pub open spec fn spec_without_block_comments(lines: Seq<Seq<u8>>, i: int, nest: int) -> Seq<
    Seq<u8>,
>
    decreases lines.len() - i,
{
    if i < 0 || i >= lines.len() {
        Seq::empty()
    } else if contains_pair(lines[i], 47, 42) {
        spec_without_block_comments(lines, i + 1, nest + 1)
    } else if contains_pair(lines[i], 42, 47) {
        spec_without_block_comments(lines, i + 1, nest - 1)
    } else if nest == 0 {
        seq![lines[i]] + spec_without_block_comments(lines, i + 1, nest)
    } else {
        spec_without_block_comments(lines, i + 1, nest)
    }
}

fn contains_pair_at(l: &[u8], a: u8, b: u8) -> (r: bool)
    ensures
        r == contains_pair(l@, a, b),
{
    let n = l.len();
    if n < 2 {
        return false;
    }
    let mut k: usize = 0;
    while k + 1 < n
        invariant
            0 <= k,
            k + 1 <= n,
            n == l@.len(),
            forall|j: int| 0 <= j < k ==> !(l@[j] == a && #[trigger] l@[j + 1] == b),
        decreases n - k,
    {
        if l[k] == a && l[k + 1] == b {
            return true;
        }
        k += 1;
    }
    false
}

/// Remove every line that belongs to a block comment, the lines holding
/// the comment markers included.
pub fn without_block_comments<'a>(lines: Vec<&'a [u8]>) -> (r: Vec<&'a [u8]>)
    ensures
        r.deep_view() == spec_without_block_comments(lines.deep_view(), 0, 0),
{
    let ghost ls = lines.deep_view();
    let mut without: Vec<&'a [u8]> = Vec::new();
    let mut nest: i128 = 0;
    let mut i: usize = 0;
    proof {
        assert(ls.len() == lines@.len());
    }
    while i < lines.len()
        invariant
            0 <= i <= lines@.len(),
            ls == lines.deep_view(),
            ls.len() == lines@.len(),
            -(i as i128) <= nest <= i as i128,
            spec_without_block_comments(ls, 0, 0) == without.deep_view()
                + spec_without_block_comments(ls, i as int, nest as int),
        decreases lines@.len() - i,
    {
        let line = lines[i];
        proof {
            assert(ls[i as int] == line@);
        }
        let ghost dv_before = without.deep_view();
        if contains_pair_at(line, 47, 42) {
            nest += 1;
        } else if contains_pair_at(line, 42, 47) {
            nest -= 1;
        } else if nest == 0 {
            without.push(line);
            proof {
                assert(without.deep_view() =~~= dv_before.push(line@));
                assert(dv_before.push(line@) + spec_without_block_comments(ls, i + 1, 0)
                    =~~= dv_before + (seq![ls[i as int]] + spec_without_block_comments(
                    ls,
                    i + 1,
                    0,
                )));
            }
        }
        i += 1;
    }
    proof {
        assert(spec_without_block_comments(ls, i as int, nest as int)
            =~~= Seq::<Seq<u8>>::empty());
        assert(without.deep_view() + Seq::<Seq<u8>>::empty() =~~= without.deep_view());
    }
    without
}

} // verus!
