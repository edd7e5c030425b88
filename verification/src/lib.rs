//! Primitives for deciding whether a piece of syntax was written literally by
//! a user or synthesized by an expansion step, and for reconstructing exact
//! byte ranges of source text for diagnostics and rewrite suggestions.
//!
//! Source text is handled as raw bytes throughout, so that every range in a
//! contract is an exact byte range into a loaded buffer.

pub mod ast;
pub mod formatting;
pub mod hygiene;
pub mod needless_continue;
pub mod overflow;
pub mod provenance;
pub mod reindent;
pub mod scanner;
pub mod source_map;
pub mod span;
pub mod sugg;
pub mod text;

use vstd::prelude::*;

verus! {

/// The category a diagnostic belongs to.
#[derive(Clone, Copy, PartialEq, Eq, Structural, Debug)]
pub enum LintCategory {
    Cargo,
    Complexity,
    Correctness,
    Nursery,
    Pedantic,
    Perf,
    Restriction,
    Style,
    Suspicious,
}

impl LintCategory {
    /// Whether the category is part of the default set of enabled diagnostics.
    pub fn is_all(self) -> (r: bool)
        ensures
            r == (self is Correctness || self is Suspicious || self is Style
                || self is Complexity || self is Perf),
    {
        matches!(
            self,
            LintCategory::Correctness | LintCategory::Suspicious | LintCategory::Style
                | LintCategory::Complexity | LintCategory::Perf
        )
    }
}

/// Whether two byte strings are equal.
pub(crate) fn bytes_eq(a: &[u8], b: &[u8]) -> (r: bool)
    ensures
        r == (a@ == b@),
{
    if a.len() != b.len() {
        proof {
            assert(a@ != b@);
        }
        return false;
    }
    let n = a.len();
    let mut i: usize = 0;
    while i < n
        invariant
            0 <= i <= n,
            n == a@.len() && n == b@.len(),
            forall|j: int| 0 <= j < i ==> a@[j] == b@[j],
        decreases n - i,
    {
        if a[i] != b[i] {
            proof {
                assert(a@ != b@);
            }
            return false;
        }
        i += 1;
    }
    proof {
        assert(a@ =~= b@);
    }
    true
}

/// Whether `pat` stands byte for byte at position `from` of `text`.
pub(crate) fn bytes_at(text: &[u8], from: usize, pat: &[u8]) -> (r: bool)
    ensures
        r == (from + pat@.len() <= text@.len() && text@.subrange(
            from as int,
            from + pat@.len(),
        ) == pat@),
{
    let plen = pat.len();
    if from > text.len() || plen > text.len() - from {
        return false;
    }
    let mut k: usize = 0;
    #[verifier::loop_isolation(false)]
    while k < plen
        invariant
            0 <= k <= plen,
            forall|j: int| 0 <= j < k ==> text@[from + j] == pat@[j],
        decreases plen - k,
    {
        if text[from + k] != pat[k] {
            proof {
                assert(text@.subrange(from as int, from + pat@.len())[k as int] != pat@[
                    k as int
                ]);
            }
            return false;
        }
        k += 1;
    }
    proof {
        assert(text@.subrange(from as int, from + pat@.len()) =~= pat@);
    }
    true
}

/// An exact copy of `s[from..to]`.
pub(crate) fn copy_range(s: &[u8], from: usize, to: usize) -> (r: Vec<u8>)
    requires
        from <= to <= s@.len(),
    ensures
        r@ == s@.subrange(from as int, to as int),
{
    let mut r: Vec<u8> = Vec::new();
    let mut k: usize = from;
    while k < to
        invariant
            from <= k <= to <= s@.len(),
            r@ == s@.subrange(from as int, k as int),
        decreases to - k,
    {
        let b = s[k];
        r.push(b);
        proof {
            assert(r@ =~= s@.subrange(from as int, k + 1));
        }
        k += 1;
    }
    r
}

} // verus!
