//! Canonical form of a textual diff.
//!
//! Two renderings of the same change (the local object diff and the remote
//! pull-request diff) may abbreviate object hashes to different lengths on
//! their `index <hash>..<hash> [<mode>]` metadata lines. Dropping exactly
//! those lines makes the two renderings compare equal.
use vstd::prelude::*;

use crate::text::{chars_of, join_lines, lemma_split_by_nonempty, split_by, string_from_chars};

verus! {

/// A lower-case hexadecimal digit.
pub open spec fn is_hex_digit(c: char) -> bool {
    ('0' <= c && c <= '9') || ('a' <= c && c <= 'f')
}

/// A decimal digit.
pub open spec fn is_dec_digit(c: char) -> bool {
    '0' <= c && c <= '9'
}

pub open spec fn all_hex(s: Seq<char>) -> bool {
    forall|i: int| 0 <= i < s.len() ==> #[trigger] is_hex_digit(s[i])
}

pub open spec fn all_dec(s: Seq<char>) -> bool {
    forall|i: int| 0 <= i < s.len() ==> #[trigger] is_dec_digit(s[i])
}

/// The literal `"index "` that opens a metadata line.
pub open spec fn index_keyword() -> Seq<char> {
    seq!['i', 'n', 'd', 'e', 'x', ' ']
}

/// `l` reads `index <h1>..<h2>` or `index <h1>..<h2> <mode>`, where the first
/// hash ends just before position `a` and the second just before `b`.
pub open spec fn index_line_split(l: Seq<char>, a: int, b: int) -> bool {
    &&& 6 < a
    &&& a + 2 < b <= l.len()
    &&& l.subrange(0, 6) == index_keyword()
    &&& all_hex(l.subrange(6, a))
    &&& l[a] == '.'
    &&& l[a + 1] == '.'
    &&& all_hex(l.subrange(a + 2, b))
    &&& (b == l.len() || (l[b] == ' ' && b + 1 < l.len() && all_dec(l.subrange(b + 1, l.len() as int))))
}

/// The whole line is a version-control index metadata line, i.e. it matches
/// `^index [0-9a-f]+\.\.[0-9a-f]+( [0-9]+)?$`.
pub open spec fn is_index_line(l: Seq<char>) -> bool {
    exists|a: int, b: int| index_line_split(l, a, b)
}

fn is_hex_char(c: char) -> (r: bool)
    ensures
        r == is_hex_digit(c),
{
    ('0' <= c && c <= '9') || ('a' <= c && c <= 'f')
}

fn is_dec_char(c: char) -> (r: bool)
    ensures
        r == is_dec_digit(c),
{
    '0' <= c && c <= '9'
}

/// End of the run of characters starting at `from` (and stopping at `end`)
/// that satisfy the hex (or, with `dec`, the decimal) digit test.
fn digit_run_end(cs: &Vec<char>, from: usize, end: usize, dec: bool) -> (r: usize)
    requires
        from <= end <= cs.len(),
    ensures
        from <= r <= end,
        forall|i: int| from <= i < r ==> (if dec { is_dec_digit(cs@[i]) } else { is_hex_digit(cs@[i]) }),
        r < end ==> !(if dec { is_dec_digit(cs@[r as int]) } else { is_hex_digit(cs@[r as int]) }),
{
    let mut k = from;
    while k < end
        invariant
            from <= k <= end <= cs.len(),
            forall|i: int| from <= i < k ==> (if dec { is_dec_digit(cs@[i]) } else { is_hex_digit(cs@[i]) }),
        decreases end - k,
    {
        let c = cs[k];
        let ok = if dec { is_dec_char(c) } else { is_hex_char(c) };
        if !ok {
            return k;
        }
        k = k + 1;
    }
    k
}

/// Whether the characters `cs[start..end]` form an index metadata line.
fn index_line_at(cs: &Vec<char>, start: usize, end: usize) -> (r: bool)
    requires
        start <= end <= cs.len(),
    ensures
        r == is_index_line(cs@.subrange(start as int, end as int)),
{
    let ghost l = cs@.subrange(start as int, end as int);
    if end - start < 6 || cs[start] != 'i' || cs[start + 1] != 'n' || cs[start + 2] != 'd'
        || cs[start + 3] != 'e' || cs[start + 4] != 'x' || cs[start + 5] != ' ' {
        proof {
            if exists|a: int, b: int| index_line_split(l, a, b) {
                let (a, b) = choose|a: int, b: int| index_line_split(l, a, b);
                assert(l.subrange(0, 6)[0] == 'i');
                assert(l.subrange(0, 6)[1] == 'n');
                assert(l.subrange(0, 6)[2] == 'd');
                assert(l.subrange(0, 6)[3] == 'e');
                assert(l.subrange(0, 6)[4] == 'x');
                assert(l.subrange(0, 6)[5] == ' ');
            }
        }
        return false;
    }
    assert(l.subrange(0, 6) =~= index_keyword());
    let a = digit_run_end(cs, start + 6, end, false);
    if a == start + 6 || end - a <= 2 || cs[a] != '.' || cs[a + 1] != '.' {
        proof {
            if exists|a2: int, b2: int| index_line_split(l, a2, b2) {
                let (a2, b2) = choose|a2: int, b2: int| index_line_split(l, a2, b2);
                assert(a2 + start == a) by {
                    if a2 + start < a {
                        assert(l[a2] == cs@[a2 + start]);
                        assert(is_hex_digit(cs@[a2 + start]));
                    } else if a2 + start > a {
                        assert(l.subrange(6, a2)[a - start - 6] == cs@[a as int]);
                    }
                }
                assert(l.subrange(a2 + 2, b2)[0] == l[a2 + 2]);
            }
        }
        return false;
    }
    let b = digit_run_end(cs, a + 2, end, false);
    if b == a + 2 {
        proof {
            if exists|a2: int, b2: int| index_line_split(l, a2, b2) {
                let (a2, b2) = choose|a2: int, b2: int| index_line_split(l, a2, b2);
                assert(a2 + start == a) by {
                    if a2 + start < a {
                        assert(l[a2] == cs@[a2 + start]);
                        assert(is_hex_digit(cs@[a2 + start]));
                    } else if a2 + start > a {
                        assert(l.subrange(6, a2)[a - start - 6] == cs@[a as int]);
                    }
                }
                assert(l.subrange(a2 + 2, b2)[0] == l[a2 + 2]);
            }
        }
        return false;
    }
    let m = if b < end && cs[b] == ' ' && b + 1 < end {
        digit_run_end(cs, b + 1, end, true)
    } else {
        b
    };
    let ok = b == end || (cs[b] == ' ' && b + 1 < end && m == end);
    proof {
        let a2 = a - start;
        let b2 = b - start;
        assert(all_hex(l.subrange(6, a2))) by {
            assert forall|i: int| 0 <= i < l.subrange(6, a2).len() implies is_hex_digit(#[trigger] l.subrange(6, a2)[i]) by {
                assert(l.subrange(6, a2)[i] == cs@[start + 6 + i]);
            }
        }
        assert(all_hex(l.subrange(a2 + 2, b2))) by {
            assert forall|i: int| 0 <= i < l.subrange(a2 + 2, b2).len() implies is_hex_digit(#[trigger] l.subrange(a2 + 2, b2)[i]) by {
                assert(l.subrange(a2 + 2, b2)[i] == cs@[a + 2 + i]);
            }
        }
        if ok {
            if b < end {
                assert(all_dec(l.subrange(b2 + 1, l.len() as int))) by {
                    assert forall|i: int| 0 <= i < l.subrange(b2 + 1, l.len() as int).len() implies is_dec_digit(#[trigger] l.subrange(b2 + 1, l.len() as int)[i]) by {
                        assert(l.subrange(b2 + 1, l.len() as int)[i] == cs@[b + 1 + i]);
                    }
                }
            }
            assert(index_line_split(l, a2, b2));
        } else {
            if exists|a3: int, b3: int| index_line_split(l, a3, b3) {
                let (a3, b3) = choose|a3: int, b3: int| index_line_split(l, a3, b3);
                assert(a3 == a2) by {
                    if a3 < a2 {
                        assert(l[a3] == cs@[a3 + start]);
                        assert(is_hex_digit(cs@[a3 + start]));
                    } else if a3 > a2 {
                        assert(l.subrange(6, a3)[a2 - 6] == cs@[a as int]);
                    }
                }
                assert(b3 == b2) by {
                    if b3 < b2 {
                        if b3 < l.len() {
                            assert(l[b3] == cs@[b3 + start]);
                            assert(is_hex_digit(cs@[b3 + start]));
                        }
                    } else if b3 > b2 {
                        assert(l.subrange(a3 + 2, b3)[b2 - a3 - 2] == cs@[b as int]);
                    }
                }
                if b < end {
                    let t = l.subrange(b2 + 1, l.len() as int);
                    assert(t[m - b - 1] == cs@[m as int]);
                }
            }
        }
    }
    ok
}

/// The lines of `s`: the pieces between `'\n'` separators, each kept
/// verbatim. There is always at least one piece (the empty text is one empty
/// line), and a trailing separator ends in an empty last piece.
pub open spec fn split_lines(s: Seq<char>) -> Seq<Seq<char>> {
    split_by(s, '\n')
}

/// The lines that are not index metadata lines, in their order.
pub open spec fn kept_lines(ls: Seq<Seq<char>>) -> Seq<Seq<char>>
    decreases ls.len(),
{
    if ls.len() == 0 {
        ls
    } else if is_index_line(ls.last()) {
        kept_lines(ls.drop_last())
    } else {
        kept_lines(ls.drop_last()).push(ls.last())
    }
}

/// The canonical form of a diff: every index metadata line removed, every
/// other line kept verbatim and in order.
pub open spec fn normalize(d: Seq<char>) -> Seq<char> {
    join_lines(kept_lines(split_lines(d)))
}

pub open spec fn has_no_newline(l: Seq<char>) -> bool {
    forall|i: int| 0 <= i < l.len() ==> #[trigger] l[i] != '\n'
}

pub open spec fn all_single_lines(ls: Seq<Seq<char>>) -> bool {
    forall|i: int| 0 <= i < ls.len() ==> #[trigger] has_no_newline(ls[i])
}

pub open spec fn none_index_lines(ls: Seq<Seq<char>>) -> bool {
    forall|i: int| 0 <= i < ls.len() ==> !#[trigger] is_index_line(ls[i])
}

/// The two diffs have the same number of lines, and wherever a line differs
/// both lines are index metadata lines.
pub open spec fn differ_only_in_index_lines(d1: Seq<char>, d2: Seq<char>) -> bool {
    let l1 = split_lines(d1);
    let l2 = split_lines(d2);
    &&& l1.len() == l2.len()
    &&& forall|i: int|
        0 <= i < l1.len() ==> #[trigger] l1[i] == l2[i] || (is_index_line(l1[i]) && is_index_line(
            l2[i],
        ))
}

proof fn lemma_split_single(b: Seq<char>)
    requires
        has_no_newline(b),
    ensures
        split_lines(b) == seq![b],
    decreases b.len(),
{
    if b.len() > 0 {
        let c = b.drop_last();
        assert(has_no_newline(c)) by {
            assert forall|i: int| 0 <= i < c.len() implies c[i] != '\n' by {
                assert(c[i] == b[i]);
            }
        }
        lemma_split_single(c);
        assert(b.last() == b[b.len() - 1]);
        assert(c.push(b.last()) =~= b);
        assert(seq![c].update(0, c.push(b.last())) =~= seq![b]);
    } else {
        assert(b =~= Seq::<char>::empty());
    }
}

proof fn lemma_split_after_newline(a: Seq<char>, b: Seq<char>)
    requires
        has_no_newline(b),
    ensures
        split_lines(a + seq!['\n'] + b) == split_lines(a).push(b),
    decreases b.len(),
{
    let s = a + seq!['\n'] + b;
    if b.len() == 0 {
        assert(s.drop_last() =~= a);
        assert(b =~= Seq::<char>::empty());
    } else {
        let c = b.drop_last();
        assert(has_no_newline(c)) by {
            assert forall|i: int| 0 <= i < c.len() implies c[i] != '\n' by {
                assert(c[i] == b[i]);
            }
        }
        lemma_split_after_newline(a, c);
        assert(s.drop_last() =~= a + seq!['\n'] + c);
        assert(s.last() == b[b.len() - 1]);
        let p = split_lines(a).push(c);
        assert(c.push(b.last()) =~= b);
        assert(p.update(p.len() - 1, p.last().push(s.last())) =~= split_lines(a).push(b));
    }
}

proof fn lemma_split_join(ks: Seq<Seq<char>>)
    requires
        ks.len() > 0,
        all_single_lines(ks),
    ensures
        split_lines(join_lines(ks)) == ks,
    decreases ks.len(),
{
    if ks.len() == 1 {
        assert(has_no_newline(ks[0]));
        lemma_split_single(ks[0]);
        assert(seq![ks[0]] =~= ks);
    } else {
        let r = ks.drop_last();
        assert(all_single_lines(r)) by {
            assert forall|i: int| 0 <= i < r.len() implies has_no_newline(r[i]) by {
                assert(r[i] == ks[i]);
            }
        }
        lemma_split_join(r);
        assert(has_no_newline(ks[ks.len() - 1]));
        lemma_split_after_newline(join_lines(r), ks.last());
        assert(r.push(ks.last()) =~= ks);
    }
}

proof fn lemma_split_single_lines(s: Seq<char>)
    ensures
        all_single_lines(split_lines(s)),
    decreases s.len(),
{
    if s.len() > 0 {
        lemma_split_single_lines(s.drop_last());
        lemma_split_by_nonempty(s.drop_last(), '\n');
        let p = split_lines(s.drop_last());
        if s.last() != '\n' {
            let q = p.update(p.len() - 1, p.last().push(s.last()));
            assert forall|i: int| 0 <= i < q.len() implies has_no_newline(q[i]) by {
                if i == p.len() - 1 {
                    assert(has_no_newline(p[i]));
                    assert forall|j: int| 0 <= j < q[i].len() implies q[i][j] != '\n' by {
                        if j < p[i].len() {
                            assert(q[i][j] == p[i][j]);
                        }
                    }
                } else {
                    assert(q[i] == p[i]);
                }
            }
        } else {
            let q = p.push(Seq::<char>::empty());
            assert forall|i: int| 0 <= i < q.len() implies has_no_newline(q[i]) by {
                if i < p.len() {
                    assert(q[i] == p[i]);
                }
            }
        }
    }
}

proof fn lemma_kept_lines_props(ls: Seq<Seq<char>>)
    requires
        all_single_lines(ls),
    ensures
        all_single_lines(kept_lines(ls)),
        none_index_lines(kept_lines(ls)),
    decreases ls.len(),
{
    if ls.len() > 0 {
        let r = ls.drop_last();
        assert(all_single_lines(r)) by {
            assert forall|i: int| 0 <= i < r.len() implies has_no_newline(r[i]) by {
                assert(r[i] == ls[i]);
            }
        }
        lemma_kept_lines_props(r);
        if !is_index_line(ls.last()) {
            let k = kept_lines(r).push(ls.last());
            assert(has_no_newline(ls[ls.len() - 1]));
            assert forall|i: int| 0 <= i < k.len() implies has_no_newline(k[i]) && !is_index_line(
                k[i],
            ) by {
                if i < k.len() - 1 {
                    assert(k[i] == kept_lines(r)[i]);
                }
            }
        }
    }
}

proof fn lemma_kept_lines_fixed(ks: Seq<Seq<char>>)
    requires
        none_index_lines(ks),
    ensures
        kept_lines(ks) == ks,
    decreases ks.len(),
{
    if ks.len() > 0 {
        let r = ks.drop_last();
        assert(none_index_lines(r)) by {
            assert forall|i: int| 0 <= i < r.len() implies !is_index_line(r[i]) by {
                assert(r[i] == ks[i]);
            }
        }
        lemma_kept_lines_fixed(r);
        assert(!is_index_line(ks[ks.len() - 1]));
        assert(r.push(ks.last()) =~= ks);
    }
}

proof fn lemma_kept_lines_agree(l1: Seq<Seq<char>>, l2: Seq<Seq<char>>)
    requires
        l1.len() == l2.len(),
        forall|i: int|
            0 <= i < l1.len() ==> #[trigger] l1[i] == l2[i] || (is_index_line(l1[i])
                && is_index_line(l2[i])),
    ensures
        kept_lines(l1) == kept_lines(l2),
    decreases l1.len(),
{
    if l1.len() > 0 {
        let r1 = l1.drop_last();
        let r2 = l2.drop_last();
        assert forall|i: int| 0 <= i < r1.len() implies #[trigger] r1[i] == r2[i] || (
        is_index_line(r1[i]) && is_index_line(r2[i])) by {
            assert(r1[i] == l1[i]);
            assert(r2[i] == l2[i]);
        }
        lemma_kept_lines_agree(r1, r2);
        let n = l1.len() - 1;
        assert(l1[n] == l2[n] || (is_index_line(l1[n]) && is_index_line(l2[n])));
    }
}

/// Canonicalizing is idempotent: a canonical diff is its own canonical form.
pub proof fn lemma_normalize_idempotent(d: Seq<char>)
    ensures
        normalize(normalize(d)) == normalize(d),
{
    let ks = kept_lines(split_lines(d));
    lemma_split_single_lines(d);
    lemma_kept_lines_props(split_lines(d));
    if ks.len() == 0 {
        let e = Seq::<char>::empty();
        assert(normalize(d) == e);
        assert(split_lines(e) == seq![e]);
        assert(!is_index_line(e));
        assert(seq![e].drop_last() =~= Seq::<Seq<char>>::empty());
        assert(kept_lines(seq![e]) == kept_lines(Seq::<Seq<char>>::empty()).push(e));
        assert(kept_lines(seq![e]) =~= seq![e]);
    } else {
        lemma_split_join(ks);
        lemma_kept_lines_fixed(ks);
    }
}

/// Diffs that differ only on index metadata lines (for instance in how long
/// their hash abbreviations are) have the same canonical form.
pub proof fn lemma_normalize_ignores_index_lines(d1: Seq<char>, d2: Seq<char>)
    requires
        differ_only_in_index_lines(d1, d2),
    ensures
        normalize(d1) == normalize(d2),
{
    lemma_kept_lines_agree(split_lines(d1), split_lines(d2));
}

/// Diffs whose content lines (the lines that are not index metadata lines)
/// differ have different canonical forms, as long as each has at least one
/// content line.
pub proof fn lemma_normalize_keeps_content_apart(d1: Seq<char>, d2: Seq<char>)
    requires
        kept_lines(split_lines(d1)).len() > 0,
        kept_lines(split_lines(d2)).len() > 0,
        kept_lines(split_lines(d1)) != kept_lines(split_lines(d2)),
    ensures
        normalize(d1) != normalize(d2),
{
    lemma_split_single_lines(d1);
    lemma_kept_lines_props(split_lines(d1));
    lemma_split_single_lines(d2);
    lemma_kept_lines_props(split_lines(d2));
    lemma_split_join(kept_lines(split_lines(d1)));
    lemma_split_join(kept_lines(split_lines(d2)));
}

/// Appends `cs[start..end]` to `out`, preceded by a newline when `sep`.
fn append_line(out: &mut Vec<char>, cs: &Vec<char>, start: usize, end: usize, sep: bool)
    requires
        start <= end <= cs.len(),
    ensures
        final(out)@ == old(out)@ + (if sep { seq!['\n'] } else { Seq::<char>::empty() })
            + cs@.subrange(start as int, end as int),
{
    let ghost base = old(out)@ + (if sep { seq!['\n'] } else { Seq::<char>::empty() });
    if sep {
        out.push('\n');
    }
    assert(out@ =~= base + cs@.subrange(start as int, start as int));
    let mut j = start;
    while j < end
        invariant
            start <= j <= end <= cs.len(),
            out@ =~= base + cs@.subrange(start as int, j as int),
        decreases end - j,
    {
        out.push(cs[j]);
        j = j + 1;
        assert(out@ =~= base + cs@.subrange(start as int, j as int));
    }
}

/// Removes every index metadata line (`index <hex>..<hex>` with an optional
/// `<mode>`) from `diff` and keeps every other line verbatim.
pub fn normalize_diff(diff: &str) -> (r: String)
    ensures
        r@ == normalize(diff@),
{
    let cs = chars_of(diff);
    let n = cs.len();

    let mut out: Vec<char> = Vec::new();
    let mut any = false;
    let mut line_start: usize = 0;
    let ghost mut done: Seq<Seq<char>> = Seq::empty();
    let mut i: usize = 0;
    assert(cs@.take(0) =~= Seq::<char>::empty());
    while i < n
        invariant
            n == cs.len(),
            line_start <= i <= n,
            split_lines(cs@.take(i as int)) == done.push(cs@.subrange(line_start as int, i as int)),
            out@ == join_lines(kept_lines(done)),
            any == (kept_lines(done).len() > 0),
        decreases n - i,
    {
        let ghost t = cs@.take(i as int + 1);
        assert(t.drop_last() =~= cs@.take(i as int));
        assert(t.last() == cs@[i as int]);
        if cs[i] == '\n' {
            let ghost line = cs@.subrange(line_start as int, i as int);
            let keep = !index_line_at(&cs, line_start, i);
            let ghost nd = done.push(line);
            assert(nd.drop_last() =~= done);
            if keep {
                assert(kept_lines(nd) == kept_lines(done).push(line));
                assert(kept_lines(nd).drop_last() =~= kept_lines(done));
                append_line(&mut out, &cs, line_start, i, any);
                assert(out@ =~= join_lines(kept_lines(nd)));
                any = true;
            }
            proof {
                done = nd;
            }
            line_start = i + 1;
            assert(split_lines(t) == nd.push(Seq::<char>::empty()));
            assert(cs@.subrange(line_start as int, i as int + 1) =~= Seq::<char>::empty());
        } else {
            proof {
                let cur = cs@.subrange(line_start as int, i as int);
                let p = done.push(cur);
                assert(cur.push(cs@[i as int]) =~= cs@.subrange(line_start as int, i as int + 1));
                assert(split_lines(t) == p.update(p.len() - 1, p.last().push(cs@[i as int])));
                assert(p.update(p.len() - 1, p.last().push(cs@[i as int])) =~= done.push(
                    cs@.subrange(line_start as int, i as int + 1),
                ));
            }
        }
        i = i + 1;
    }
    assert(cs@.take(n as int) =~= cs@);
    let ghost line = cs@.subrange(line_start as int, n as int);
    let keep = !index_line_at(&cs, line_start, n);
    let ghost nd = done.push(line);
    assert(nd.drop_last() =~= done);
    if keep {
        assert(kept_lines(nd) == kept_lines(done).push(line));
        assert(kept_lines(nd).drop_last() =~= kept_lines(done));
        append_line(&mut out, &cs, line_start, n, any);
        assert(out@ =~= join_lines(kept_lines(nd)));
    }
    string_from_chars(out)
}

} // verus!
