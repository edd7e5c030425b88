//! Re-indenting multi-line snippets.
//!
//! A snippet lifted from one place in a file keeps the indentation of that
//! place; before it can be inserted somewhere else it is shifted so that its
//! least-indented line sits at the target indent. Indentation is measured
//! once in spaces, once in tabs, and once more in spaces, so mixed
//! indentation settles into spaces at the target depth.

use vstd::prelude::*;

use crate::source_map::{lemma_line_end_bounds, spec_line_end};

verus! {

/// All the lines of `s` from position `start` on, split at every newline;
/// the newlines themselves belong to no line.
pub open spec fn spec_split_from(s: Seq<u8>, start: int) -> Seq<Seq<u8>>
    decreases s.len() - start,
    when 0 <= start <= s.len()
    via spec_split_from_dec
{
    let end = spec_line_end(s, start);
    if end >= s.len() {
        seq![s.subrange(start, s.len() as int)]
    } else {
        seq![s.subrange(start, end)] + spec_split_from(s, end + 1)
    }
}

#[via_fn]
proof fn spec_split_from_dec(s: Seq<u8>, start: int) {
    lemma_line_end_bounds(s, start);
}

/// The lines of `s`: the split pieces, except that the piece after a final
/// newline, being empty, is dropped — so `"a\n"` has the single line `"a"`.
pub open spec fn spec_lines(s: Seq<u8>) -> Seq<Seq<u8>> {
    let pieces = spec_split_from(s, 0);
    if pieces.len() > 0 && pieces.last().len() == 0 {
        pieces.drop_last()
    } else {
        pieces
    }
}

/// Lines joined back together with single newlines.
pub open spec fn spec_join(ls: Seq<Seq<u8>>) -> Seq<u8>
    decreases ls.len(),
{
    if ls.len() == 0 {
        Seq::empty()
    } else if ls.len() == 1 {
        ls[0]
    } else {
        ls[0] + seq![10u8] + spec_join(ls.drop_first())
    }
}

/// The number of leading `ch` bytes of `l` counted from position `i`.
pub open spec fn spec_leading_from(l: Seq<u8>, ch: u8, i: int) -> int
    decreases l.len() - i,
{
    if i < 0 || i >= l.len() || l[i] != ch {
        i
    } else {
        spec_leading_from(l, ch, i + 1)
    }
}

/// The number of leading `ch` bytes of `l`.
pub open spec fn spec_leading(l: Seq<u8>, ch: u8) -> int {
    spec_leading_from(l, ch, 0)
}

/// The least leading-`ch` count over the non-empty lines of `ls` from index
/// `skip` on; `None` when there is no such line.
pub open spec fn spec_min_indent(ls: Seq<Seq<u8>>, ch: u8, skip: int) -> Option<int>
    decreases ls.len() - skip,
{
    if skip < 0 || skip >= ls.len() {
        None
    } else {
        let rest = spec_min_indent(ls, ch, skip + 1);
        if ls[skip].len() == 0 {
            rest
        } else {
            let c = spec_leading(ls[skip], ch);
            match rest {
                None => Some(c),
                Some(m) => if c <= m {
                    Some(c)
                } else {
                    Some(m)
                },
            }
        }
    }
}

/// One line shifted from measured indent `x` to target indent `indent`:
/// deeper lines lose their first `x - indent` bytes, shallower ones gain
/// `indent - x` spaces.
pub open spec fn spec_shift(l: Seq<u8>, x: int, indent: int) -> Seq<u8> {
    if x > indent {
        l.subrange(x - indent, l.len() as int)
    } else {
        Seq::new((indent - x) as nat, |k: int| 32u8) + l
    }
}

/// The lines of one re-indentation pass: empty lines and, when
/// `ignore_first` is set, the first line stay untouched.
pub open spec fn spec_pass_lines(
    ls: Seq<Seq<u8>>,
    ignore_first: bool,
    indent: int,
    ch: u8,
) -> Seq<Seq<u8>> {
    let x = match spec_min_indent(ls, ch, if ignore_first { 1int } else { 0int }) {
        Some(m) => m,
        None => 0int,
    };
    Seq::new(
        ls.len(),
        |i: int| if (ignore_first && i == 0) || ls[i].len() == 0 {
            ls[i]
        } else {
            spec_shift(ls[i], x, indent)
        },
    )
}

/// One re-indentation pass over the whole string.
pub open spec fn spec_reindent_pass(s: Seq<u8>, ignore_first: bool, indent: int, ch: u8) -> Seq<u8> {
    spec_join(spec_pass_lines(spec_lines(s), ignore_first, indent, ch))
}

/// The target indent: the given one, or zero when none is given.
pub open spec fn spec_indent_or_zero(indent: Option<usize>) -> int {
    match indent {
        Some(n) => n as int,
        None => 0int,
    }
}

/// The full re-indentation: a space pass, a tab pass, and a final space
/// pass.
pub open spec fn spec_reindent(s: Seq<u8>, ignore_first: bool, indent: int) -> Seq<u8> {
    spec_reindent_pass(
        spec_reindent_pass(spec_reindent_pass(s, ignore_first, indent, 32), ignore_first, indent, 9),
        ignore_first,
        indent,
        32,
    )
}

/// Split `s` into its lines.
pub fn split_lines(s: &[u8]) -> (r: Vec<Vec<u8>>)
    ensures
        r.deep_view() == spec_lines(s@),
{
    let n = s.len();
    let mut pieces: Vec<Vec<u8>> = Vec::new();
    let mut start: usize = 0;
    let mut done = false;
    while !done
        invariant
            0 <= start <= n,
            n == s@.len(),
            !done ==> spec_split_from(s@, 0) == pieces.deep_view() + spec_split_from(
                s@,
                start as int,
            ),
            done ==> pieces.deep_view() == spec_split_from(s@, 0),
        decreases n - start + (if done { 0int } else { 1int }),
    {
        let end = crate::source_map::line_end_of(s, start);
        let piece = crate::copy_range(s, start, end);
        let ghost dv_before = pieces.deep_view();
        let ghost piece_view = piece@;
        pieces.push(piece);
        proof {
            lemma_line_end_bounds(s@, start as int);
            assert(pieces.deep_view() =~~= dv_before.push(piece_view));
            if end < n {
                assert(spec_split_from(s@, start as int)
                    == seq![s@.subrange(start as int, end as int)]
                    + spec_split_from(s@, end + 1));
                assert(dv_before.push(piece_view) + spec_split_from(s@, end + 1)
                    =~~= dv_before + spec_split_from(s@, start as int));
            } else {
                assert(spec_split_from(s@, start as int)
                    == seq![s@.subrange(start as int, n as int)]);
                assert(dv_before.push(piece_view)
                    =~~= dv_before + spec_split_from(s@, start as int));
            }
        }
        if end < n {
            start = end + 1;
        } else {
            done = true;
        }
    }
    let last_is_empty = pieces.len() > 0 && pieces[pieces.len() - 1].len() == 0;
    if last_is_empty {
        pieces.pop();
        proof {
            assert(pieces.deep_view() =~~= spec_lines(s@));
        }
    } else {
        proof {
            assert(pieces.deep_view() =~~= spec_lines(s@));
        }
    }
    pieces
}

/// The number of leading `ch` bytes of `l`.
fn leading_of(l: &Vec<u8>, ch: u8) -> (r: usize)
    ensures
        r == spec_leading(l@, ch),
        r <= l@.len(),
{
    proof {
        lemma_leading_bounds(l@, ch, 0);
    }
    let mut i: usize = 0;
    while i < l.len() && l[i] == ch
        invariant
            0 <= i <= l@.len(),
            spec_leading(l@, ch) == spec_leading_from(l@, ch, i as int),
        decreases l@.len() - i,
    {
        i += 1;
    }
    i
}

proof fn lemma_leading_bounds(l: Seq<u8>, ch: u8, i: int)
    requires
        0 <= i <= l.len(),
    ensures
        i <= spec_leading_from(l, ch, i) <= l.len(),
    decreases l.len() - i,
{
    if !(i >= l.len() || l[i] != ch) {
        lemma_leading_bounds(l, ch, i + 1);
    }
}

/// The least leading-`ch` count over the non-empty lines from `skip` on.
fn min_indent_of(lines: &Vec<Vec<u8>>, ch: u8, skip: usize) -> (r: Option<usize>)
    ensures
        match r {
            Some(m) => spec_min_indent(lines.deep_view(), ch, skip as int) == Some(m as int),
            None => spec_min_indent(lines.deep_view(), ch, skip as int) is None,
        },
{
    let ghost ls = lines.deep_view();
    let n = lines.len();
    proof {
        assert(ls.len() == lines@.len());
    }
    let mut i: usize = n;
    let mut cur: Option<usize> = None;
    while i > skip
        invariant
            skip <= i <= n || (i == n && n <= skip),
            n == ls.len(),
            ls == lines.deep_view(),
            match cur {
                Some(m) => spec_min_indent(ls, ch, i as int) == Some(m as int),
                None => spec_min_indent(ls, ch, i as int) is None,
            },
        decreases i,
    {
        i -= 1;
        let l = &lines[i];
        proof {
            assert(ls[i as int] == l@);
        }
        if l.len() > 0 {
            let c = leading_of(l, ch);
            cur = match cur {
                None => Some(c),
                Some(m) => if c <= m {
                    Some(c)
                } else {
                    Some(m)
                },
            };
        }
    }
    proof {
        if n <= skip {
            assert(spec_min_indent(ls, ch, skip as int) is None);
        }
    }
    cur
}

/// A run of `n` spaces.
fn spaces(n: usize) -> (r: Vec<u8>)
    ensures
        r@ == Seq::new(n as nat, |k: int| 32u8),
{
    let mut r: Vec<u8> = Vec::new();
    let mut k: usize = 0;
    while k < n
        invariant
            0 <= k <= n,
            r@ == Seq::new(k as nat, |j: int| 32u8),
        decreases n - k,
    {
        r.push(32);
        proof {
            assert(r@ =~= Seq::new((k + 1) as nat, |j: int| 32u8));
        }
        k += 1;
    }
    r
}

proof fn lemma_join_take_step(ls: Seq<Seq<u8>>, i: int)
    requires
        1 <= i < ls.len(),
    ensures
        spec_join(ls.take(i + 1)) == spec_join(ls.take(i)) + seq![10u8] + ls[i],
    decreases i,
{
    let tail = ls.drop_first();
    assert(ls.take(i + 1).drop_first() =~= tail.take(i));
    assert(ls.take(i + 1)[0] == ls[0]);
    if i == 1 {
        assert(ls.take(1) =~= seq![ls[0]]);
        assert(tail.take(1) =~= seq![ls[1]]);
        assert(spec_join(tail.take(1)) == ls[1]);
        assert(spec_join(ls.take(2)) == ls[0] + seq![10u8] + ls[1]);
        assert(spec_join(ls.take(1)) == ls[0]);
    } else {
        lemma_join_take_step(tail, i - 1);
        assert(tail[i - 1] == ls[i]);
        assert(ls.take(i).drop_first() =~= tail.take(i - 1));
        assert(ls.take(i)[0] == ls[0]);
        assert(spec_join(ls.take(i)) == ls[0] + seq![10u8] + spec_join(tail.take(i - 1)));
        assert(spec_join(ls.take(i + 1)) == ls[0] + seq![10u8] + spec_join(tail.take(i)));
        assert((ls[0] + seq![10u8] + (spec_join(tail.take(i - 1)) + seq![10u8] + ls[i]))
            =~= (ls[0] + seq![10u8] + spec_join(tail.take(i - 1))) + seq![10u8] + ls[i]);
    }
}

/// One re-indentation pass, measuring indentation in the single byte `ch`.
pub fn reindent_multiline_inner(s: &[u8], ignore_first: bool, indent: Option<usize>, ch: u8) -> (r:
    Vec<u8>)
    ensures
        r@ == spec_reindent_pass(s@, ignore_first, spec_indent_or_zero(indent), ch),
{
    let lines = split_lines(s);
    let ghost ls = lines.deep_view();
    let skip: usize = if ignore_first {
        1
    } else {
        0
    };
    let x: usize = match min_indent_of(&lines, ch, skip) {
        Some(m) => m,
        None => 0,
    };
    let ind: usize = match indent {
        Some(n) => n,
        None => 0,
    };
    let ghost mapped = spec_pass_lines(ls, ignore_first, ind as int, ch);
    proof {
        assert(mapped.len() == ls.len());
    }
    let mut out: Vec<u8> = Vec::new();
    let mut i: usize = 0;
    while i < lines.len()
        invariant
            0 <= i <= lines@.len(),
            ls == lines.deep_view(),
            ls.len() == lines@.len(),
            mapped == spec_pass_lines(ls, ignore_first, ind as int, ch),
            mapped.len() == ls.len(),
            skip == (if ignore_first { 1usize } else { 0usize }),
            spec_min_indent(ls, ch, if ignore_first { 1int } else { 0int }) matches Some(m)
                ==> x == m,
            spec_min_indent(ls, ch, if ignore_first { 1int } else { 0int }) is None ==> x == 0,
            i == 0 ==> out@ == Seq::<u8>::empty(),
            i > 0 ==> out@ == spec_join(mapped.take(i as int)),
        decreases lines@.len() - i,
    {
        let l = &lines[i];
        proof {
            assert(ls[i as int] == l@);
        }
        let mut shifted: Vec<u8>;
        if (ignore_first && i == 0) || l.len() == 0 {
            shifted = crate::copy_range(l.as_slice(), 0, l.len());
            proof {
                assert(shifted@ =~= ls[i as int]);
                assert(shifted@ == mapped[i as int]);
            }
        } else if x > ind {
            let cut = x - ind;
            proof {
                assert(skip as int <= i as int);
                assert(ls[i as int].len() > 0);
                lemma_min_indent_le(ls, ch, skip as int, i as int);
                assert(x <= ls[i as int].len());
            }
            shifted = crate::copy_range(l.as_slice(), cut, l.len());
            proof {
                assert(shifted@ == mapped[i as int]);
            }
        } else {
            let mut sp = spaces(ind - x);
            let mut tail = crate::copy_range(l.as_slice(), 0, l.len());
            proof {
                assert(tail@ =~= ls[i as int]);
            }
            sp.append(&mut tail);
            shifted = sp;
            proof {
                assert(shifted@ == mapped[i as int]);
            }
        }
        if i > 0 {
            out.push(10);
        }
        let ghost out_before = out@;
        out.append(&mut shifted);
        proof {
            if i == 0 {
                assert(out@ =~= mapped[0]);
                assert(mapped.take(1) =~= seq![mapped[0]]);
                assert(spec_join(mapped.take(1)) == mapped[0]);
            } else {
                lemma_join_take_step(mapped, i as int);
                assert(out@ =~= spec_join(mapped.take(i as int)) + seq![10u8]
                    + mapped[i as int]);
            }
        }
        i += 1;
    }
    proof {
        if ls.len() == 0 {
            assert(mapped.len() == 0);
            assert(spec_join(mapped) == Seq::<u8>::empty());
        } else {
            assert(mapped.take(ls.len() as int) =~= mapped);
        }
    }
    out
}

/// A non-empty considered line's leading count is at least the measured
/// minimum.
proof fn lemma_min_indent_le(ls: Seq<Seq<u8>>, ch: u8, skip: int, i: int)
    requires
        skip <= i < ls.len(),
        0 <= skip,
        ls[i].len() > 0,
    ensures
        match spec_min_indent(ls, ch, skip) {
            Some(m) => m <= spec_leading(ls[i], ch) && spec_leading(ls[i], ch) <= ls[i].len(),
            None => false,
        },
    decreases i - skip,
{
    lemma_leading_bounds(ls[i], ch, 0);
    if skip == i {
        match spec_min_indent(ls, ch, skip + 1) {
            Some(m) => {},
            None => {},
        }
    } else {
        lemma_min_indent_le(ls, ch, skip + 1, i);
    }
}

/// A line holds no newline byte.
pub open spec fn line_has_no_newline(l: Seq<u8>) -> bool {
    forall|j: int| 0 <= j < l.len() ==> l[j] != 10
}

/// Whether line `i` of `ls` is considered by a pass: not skipped as the
/// first line and not empty.
pub open spec fn spec_considered(ls: Seq<Seq<u8>>, ignore_first: bool, i: int) -> bool {
    0 <= i < ls.len() && (i >= 1 || !ignore_first) && ls[i].len() > 0
}

/// A line correctly indented at `indent`: at least `indent` leading spaces,
/// and right after its leading spaces a byte that is not whitespace.
pub open spec fn spec_line_at_indent(l: Seq<u8>, indent: int) -> bool {
    &&& spec_leading(l, 32) >= indent
    &&& spec_leading(l, 32) < l.len()
    &&& !crate::scanner::is_whitespace_byte(l[spec_leading(l, 32)])
}

proof fn lemma_line_end_first_nl(s: Seq<u8>, p: int, q: int)
    requires
        0 <= p <= q < spec_line_end(s, p),
    ensures
        s[q] != 10,
    decreases q - p,
{
    if p < q {
        lemma_line_end_first_nl(s, p + 1, q);
    }
}

proof fn lemma_no_nl_line_end(s: Seq<u8>, p: int)
    requires
        0 <= p <= s.len(),
        forall|q: int| p <= q < s.len() ==> s[q] != 10,
    ensures
        spec_line_end(s, p) == s.len(),
    decreases s.len() - p,
{
    if p < s.len() {
        lemma_no_nl_line_end(s, p + 1);
    }
}

proof fn lemma_line_end_shift(s: Seq<u8>, start: int, q: int)
    requires
        0 <= start,
        start <= start + q <= s.len(),
    ensures
        spec_line_end(s, start + q) == start + spec_line_end(
            s.subrange(start, s.len() as int),
            q,
        ),
    decreases s.len() - start - q,
{
    let t = s.subrange(start, s.len() as int);
    if start + q < s.len() && s[start + q] != 10 {
        lemma_line_end_shift(s, start, q + 1);
    }
}

proof fn lemma_split_shift(s: Seq<u8>, start: int)
    requires
        0 <= start <= s.len(),
    ensures
        spec_split_from(s, start) == spec_split_from(s.subrange(start, s.len() as int), 0),
    decreases s.len() - start,
{
    let t = s.subrange(start, s.len() as int);
    let end = spec_line_end(s, start);
    lemma_line_end_shift(s, start, 0);
    lemma_line_end_bounds(s, start);
    assert(spec_line_end(t, 0) == end - start);
    if end >= s.len() {
        assert(s.subrange(start, s.len() as int) =~= t.subrange(0, t.len() as int));
        assert(spec_split_from(t, 0) =~~= seq![t.subrange(0, t.len() as int)]);
    } else {
        lemma_split_shift(s, end + 1);
        let t2 = s.subrange(end + 1, s.len() as int);
        assert(t.subrange(end - start + 1, t.len() as int) =~= t2);
        assert(s.subrange(start, end) =~= t.subrange(0, end - start));
        assert(spec_split_from(t, 0) == seq![t.subrange(0, end - start)] + spec_split_from(
            t,
            end - start + 1,
        ));
        lemma_split_shift(t, end - start + 1);
    }
}

proof fn lemma_split_no_nl(s: Seq<u8>, start: int, i: int)
    requires
        0 <= start <= s.len(),
        0 <= i < spec_split_from(s, start).len(),
    ensures
        line_has_no_newline(spec_split_from(s, start)[i]),
    decreases s.len() - start,
{
    let end = spec_line_end(s, start);
    lemma_line_end_bounds(s, start);
    if i == 0 {
        let piece = spec_split_from(s, start)[0];
        assert forall|j: int| 0 <= j < piece.len() implies piece[j] != 10 by {
            lemma_line_end_first_nl(s, start, start + j);
        }
    } else {
        assert(end < s.len());
        lemma_split_no_nl(s, end + 1, i - 1);
    }
}

/// Every line of a string is free of newline bytes.
pub proof fn lemma_lines_no_nl(s: Seq<u8>, i: int)
    requires
        0 <= i < spec_lines(s).len(),
    ensures
        line_has_no_newline(spec_lines(s)[i]),
{
    lemma_split_no_nl(s, 0, i);
}

/// Splitting the join of newline-free lines gives the lines back, provided
/// the last line is not empty.
proof fn lemma_lines_of_join(ls: Seq<Seq<u8>>)
    requires
        forall|i: int| 0 <= i < ls.len() ==> line_has_no_newline(#[trigger] ls[i]),
        ls.len() > 0 ==> ls.last().len() > 0,
    ensures
        spec_lines(spec_join(ls)) == ls,
    decreases ls.len(),
{
    let s = spec_join(ls);
    if ls.len() == 0 {
        assert(s =~= Seq::<u8>::empty());
        assert(spec_line_end(s, 0) == 0);
        assert(spec_split_from(s, 0) =~~= seq![Seq::<u8>::empty()]);
        assert(spec_lines(s) =~~= Seq::<Seq<u8>>::empty());
    } else if ls.len() == 1 {
        assert(s == ls[0]);
        lemma_no_nl_line_end(s, 0);
        assert(spec_split_from(s, 0) =~~= seq![s.subrange(0, s.len() as int)]);
        assert(s.subrange(0, s.len() as int) =~= ls[0]);
        assert(spec_lines(s) =~~= ls);
    } else {
        let tail = ls.drop_first();
        let head = ls[0];
        let rest = spec_join(tail);
        assert(s == head + seq![10u8] + rest);
        assert forall|i: int| 0 <= i < tail.len() implies line_has_no_newline(
            #[trigger] tail[i],
        ) by {
            assert(tail[i] == ls[i + 1]);
        }
        assert(tail.last() == ls.last());
        lemma_lines_of_join(tail);
        // the first newline of `s` sits right after the head line
        assert forall|q: int| 0 <= q < head.len() implies s[q] != 10 by {
            assert(s[q] == head[q]);
        }
        assert(s[head.len() as int] == 10);
        lemma_line_end_from_to(s, 0, head.len() as int);
        assert(spec_line_end(s, 0) == head.len());
        assert(spec_split_from(s, 0) == seq![s.subrange(0, head.len() as int)]
            + spec_split_from(s, head.len() + 1int));
        assert(s.subrange(0, head.len() as int) =~= head);
        lemma_split_shift(s, head.len() + 1int);
        assert(s.subrange(head.len() + 1int, s.len() as int) =~= rest);
        // the pieces of `s` are the head plus the pieces of the rest
        assert(spec_split_from(s, 0) == seq![head] + spec_split_from(rest, 0));
        // relate the drop-last rule on both sides
        let pieces_rest = spec_split_from(rest, 0);
        let pieces = seq![head] + pieces_rest;
        assert(pieces.len() == 1 + pieces_rest.len());
        assert(pieces_rest.len() > 0) by {
            lemma_split_nonempty(rest, 0);
        }
        assert(pieces.last() == pieces_rest.last());
        if pieces_rest.last().len() == 0 {
            assert(spec_lines(rest) == pieces_rest.drop_last());
            assert(pieces.drop_last() =~~= seq![head] + pieces_rest.drop_last());
            assert(spec_lines(s) =~~= seq![head] + spec_lines(rest));
        } else {
            assert(spec_lines(rest) == pieces_rest);
            assert(spec_lines(s) =~~= seq![head] + spec_lines(rest));
        }
        assert(seq![head] + tail =~~= ls);
    }
}

proof fn lemma_split_nonempty(s: Seq<u8>, start: int)
    requires
        0 <= start <= s.len(),
    ensures
        spec_split_from(s, start).len() > 0,
{
    lemma_line_end_bounds(s, start);
}

proof fn lemma_line_end_from_to(s: Seq<u8>, p: int, q: int)
    requires
        0 <= p <= q < s.len(),
        forall|j: int| p <= j < q ==> s[j] != 10,
        s[q] == 10,
    ensures
        spec_line_end(s, p) == q,
    decreases q - p,
{
    if p < q {
        lemma_line_end_from_to(s, p + 1, q);
    }
}

proof fn lemma_leading_concat(n: int, l: Seq<u8>)
    requires
        n >= 0,
    ensures
        spec_leading(Seq::new(n as nat, |k: int| 32u8) + l, 32) == n + spec_leading(l, 32),
    decreases n,
{
    let full = Seq::new(n as nat, |k: int| 32u8) + l;
    if n == 0 {
        assert(full =~= l);
        lemma_leading_shift_zero(full, l);
    } else {
        let smaller = Seq::new((n - 1) as nat, |k: int| 32u8) + l;
        lemma_leading_concat(n - 1, l);
        assert(full.drop_first() =~= smaller);
        assert(full[0] == 32);
        lemma_leading_drop_first(full);
    }
}

proof fn lemma_leading_shift_zero(a: Seq<u8>, b: Seq<u8>)
    requires
        a == b,
    ensures
        spec_leading(a, 32) == spec_leading(b, 32),
{
}

/// Dropping a first byte equal to `ch` lowers the leading count by one.
proof fn lemma_leading_drop_first(l: Seq<u8>)
    requires
        l.len() > 0,
        l[0] == 32,
    ensures
        spec_leading(l, 32) == 1 + spec_leading(l.drop_first(), 32),
{
    lemma_leading_from_shift(l, 1);
}

proof fn lemma_leading_from_shift(l: Seq<u8>, i: int)
    requires
        1 <= i <= l.len(),
    ensures
        spec_leading_from(l, 32, i) == 1 + spec_leading_from(l.drop_first(), 32, i - 1),
    decreases l.len() - i,
{
    let t = l.drop_first();
    if !(i >= l.len() || l[i] != 32) {
        lemma_leading_from_shift(l, i + 1);
    }
}

/// The minimum indent is a lower bound over the considered lines.
proof fn lemma_min_lb(ls: Seq<Seq<u8>>, ch: u8, skip: int, b: int)
    requires
        0 <= skip,
        forall|i: int| skip <= i < ls.len() && (#[trigger] ls[i]).len() > 0
            ==> spec_leading(ls[i], ch) >= b,
    ensures
        match spec_min_indent(ls, ch, skip) {
            Some(m) => m >= b,
            None => true,
        },
    decreases ls.len() - skip,
{
    if skip < ls.len() {
        lemma_min_lb(ls, ch, skip + 1, b);
    }
}

/// When every considered line has leading count at least `v` and some
/// considered line exactly `v`, the minimum is `v`.
proof fn lemma_min_exact(ls: Seq<Seq<u8>>, ch: u8, skip: int, v: int)
    requires
        0 <= skip,
        forall|i: int| skip <= i < ls.len() && (#[trigger] ls[i]).len() > 0
            ==> spec_leading(ls[i], ch) >= v,
        exists|i: int| skip <= i < ls.len() && (#[trigger] ls[i]).len() > 0
            && spec_leading(ls[i], ch) == v,
    ensures
        spec_min_indent(ls, ch, skip) == Some(v),
    decreases ls.len() - skip,
{
    let w = choose|i: int| skip <= i < ls.len() && (#[trigger] ls[i]).len() > 0
        && spec_leading(ls[i], ch) == v;
    if w == skip {
        lemma_min_lb(ls, ch, skip + 1, v);
    } else {
        lemma_min_exact(ls, ch, skip + 1, v);
    }
}

/// Re-indenting an already correctly indented multi-line string at the same
/// target indent is a no-op.
///
/// Correctly indented means: taken line by line (with the first line set
/// aside when `ignore_first` holds and empty lines always set aside), every
/// line starts with at least `indent` spaces followed by a byte that is not
/// whitespace, and some line has exactly `indent` leading spaces. The
/// string must also survive its own line decomposition — it has no trailing
/// newline — since re-indentation normalizes a trailing newline away.
pub proof fn lemma_reindent_noop(s: Seq<u8>, ignore_first: bool, indent: int)
    requires
        indent >= 0,
        spec_join(spec_lines(s)) == s,
        spec_lines(s).len() > 0 ==> spec_lines(s).last().len() > 0,
        forall|i: int| spec_considered(spec_lines(s), ignore_first, i)
            ==> spec_line_at_indent(#[trigger] spec_lines(s)[i], indent),
        exists|i: int| spec_considered(spec_lines(s), ignore_first, i)
            && spec_leading(#[trigger] spec_lines(s)[i], 32) == indent,
    ensures
        spec_reindent(s, ignore_first, indent) == s,
{
    let ls = spec_lines(s);
    let skip: int = if ignore_first { 1 } else { 0 };

    // Pass one, measuring spaces: the minimum is exactly `indent`, so every
    // line is shifted by zero.
    assert forall|i: int| skip <= i < ls.len() && (#[trigger] ls[i]).len() > 0
        implies spec_leading(ls[i], 32) >= indent by {
        assert(spec_considered(ls, ignore_first, i));
    }
    lemma_min_exact(ls, 32, skip, indent);
    let pass1 = spec_pass_lines(ls, ignore_first, indent, 32);
    assert forall|i: int| 0 <= i < ls.len() implies pass1[i] == ls[i] by {
        if !((ignore_first && i == 0) || ls[i].len() == 0) {
            assert(spec_shift(ls[i], indent, indent) =~= ls[i]);
        }
    }
    assert(pass1 =~~= ls);
    assert(spec_reindent_pass(s, ignore_first, indent, 32) == s);

    // Pass two, measuring tabs: every considered line starts with a space
    // or a non-whitespace byte, so every tab count is zero and the pass
    // prepends exactly `indent` spaces to each considered line.
    assert forall|i: int| skip <= i < ls.len() && (#[trigger] ls[i]).len() > 0
        implies spec_leading(ls[i], 9) == 0 by {
        assert(spec_considered(ls, ignore_first, i));
        let lc = spec_leading(ls[i], 32);
        if lc > 0 {
            assert(ls[i][0] == 32);
        } else {
            assert(!crate::scanner::is_whitespace_byte(ls[i][0]));
        }
        assert(ls[i][0] != 9);
    }
    let w = choose|i: int| spec_considered(ls, ignore_first, i)
        && spec_leading(#[trigger] ls[i], 32) == indent;
    assert(skip <= w < ls.len() && ls[w].len() > 0 && spec_leading(ls[w], 9) == 0);
    lemma_min_exact(ls, 9, skip, 0);
    let pass2 = spec_pass_lines(ls, ignore_first, indent, 9);
    let ghost padded = |i: int| Seq::new(indent as nat, |k: int| 32u8) + ls[i];
    assert forall|i: int| 0 <= i < ls.len() implies pass2[i] == (if (ignore_first && i == 0)
        || ls[i].len() == 0 {
        ls[i]
    } else {
        padded(i)
    }) by {
        if !((ignore_first && i == 0) || ls[i].len() == 0) {
            assert(spec_shift(ls[i], 0, indent) == padded(i));
        }
    }
    let s2 = spec_join(pass2);
    assert(spec_reindent_pass(s, ignore_first, indent, 9) == s2);

    // The second pass kept every line newline-free and the last line
    // non-empty, so the third pass sees exactly those lines again.
    assert forall|i: int| 0 <= i < pass2.len() implies line_has_no_newline(
        #[trigger] pass2[i],
    ) by {
        lemma_lines_no_nl(s, i);
        assert(line_has_no_newline(ls[i]));
        if !((ignore_first && i == 0) || ls[i].len() == 0) {
            assert forall|j: int| 0 <= j < padded(i).len() implies #[trigger] padded(i)[j]
                != 10 by {
                if j >= indent {
                    assert(padded(i)[j] == ls[i][j - indent]);
                }
            }
        }
    }
    assert(pass2.len() == ls.len());
    if pass2.len() > 0 {
        let last = ls.len() - 1;
        assert(ls[last].len() > 0);
        if !((ignore_first && last == 0) || ls[last].len() == 0) {
            assert(pass2.last() == padded(last));
            assert(padded(last).len() > 0);
        } else {
            assert(pass2.last() == ls[last]);
        }
    }
    lemma_lines_of_join(pass2);
    assert(spec_lines(s2) == pass2);

    // Pass three, measuring spaces again: every considered line gained
    // `indent` spaces, so the minimum is `2 * indent` and the pass strips
    // the padding off again.
    assert forall|i: int| skip <= i < pass2.len() && (#[trigger] pass2[i]).len() > 0
        implies spec_leading(pass2[i], 32) >= 2 * indent by {
        assert(ls[i].len() > 0) by {
            if ls[i].len() == 0 {
                assert(pass2[i] == ls[i]);
            }
        }
        assert(spec_considered(ls, ignore_first, i));
        lemma_leading_concat(indent, ls[i]);
        assert(pass2[i] == padded(i));
        assert(spec_leading(pass2[i], 32) == indent + spec_leading(ls[i], 32));
    }
    assert(pass2[w] == padded(w));
    lemma_leading_concat(indent, ls[w]);
    assert(spec_leading(pass2[w], 32) == 2 * indent);
    assert(pass2[w].len() > 0);
    lemma_min_exact(pass2, 32, skip, 2 * indent);
    let pass3 = spec_pass_lines(pass2, ignore_first, indent, 32);
    assert forall|i: int| 0 <= i < pass2.len() implies pass3[i] == ls[i] by {
        if (ignore_first && i == 0) || ls[i].len() == 0 {
            assert(pass2[i] == ls[i]);
            if pass2[i].len() == 0 || (ignore_first && i == 0) {
            } else {
                assert(spec_considered(ls, ignore_first, i));
                lemma_leading_concat(indent, ls[i]);
                assert(spec_shift(pass2[i], 2 * indent, indent) =~= ls[i]);
            }
        } else {
            assert(pass2[i] == padded(i));
            assert(pass2[i].len() > 0);
            if indent > 0 {
                assert(spec_shift(pass2[i], 2 * indent, indent)
                    =~= padded(i).subrange(indent, padded(i).len() as int));
                assert(padded(i).subrange(indent, padded(i).len() as int) =~= ls[i]);
            } else {
                assert(spec_shift(pass2[i], 0, 0) =~= ls[i]);
            }
        }
    }
    assert(pass3 =~~= ls);
    assert(spec_reindent_pass(s2, ignore_first, indent, 32) == spec_join(ls));
}

/// Reindent a multi-line snippet to the given target indent, optionally
/// leaving the first line untouched.
pub fn reindent_multiline(s: &[u8], ignore_first: bool, indent: Option<usize>) -> (r: Vec<u8>)
    ensures
        r@ == spec_reindent(s@, ignore_first, spec_indent_or_zero(indent)),
{
    let pass_space = reindent_multiline_inner(s, ignore_first, indent, 32);
    let pass_tab = reindent_multiline_inner(pass_space.as_slice(), ignore_first, indent, 9);
    reindent_multiline_inner(pass_tab.as_slice(), ignore_first, indent, 32)
}

} // verus!
