//! Character-level helpers shared by the parsers and message builders.
use vstd::prelude::*;

verus! {

/// The characters of `s`, in order.
pub fn chars_of(s: &str) -> (r: Vec<char>)
    ensures
        r@ == s@,
{
    let mut cs: Vec<char> = Vec::new();
    for c in it: s.chars()
        invariant
            cs@ == it.seq().take(it.index() as int),
            it.seq() == s@,
    {
        cs.push(c);
    }
    assert(cs@ =~= s@);
    cs
}

/// Relies on `String::from_iter`: the string holds the given characters, in order.
#[verifier::external_body]
pub fn string_from_chars(cs: Vec<char>) -> (r: String)
    ensures
        r@ == cs@,
{
    String::from_iter(cs)
}

/// The characters `cs[start..end]` as a string.
pub fn string_of_range(cs: &Vec<char>, start: usize, end: usize) -> (r: String)
    requires
        start <= end <= cs.len(),
    ensures
        r@ == cs@.subrange(start as int, end as int),
{
    let mut out: Vec<char> = Vec::new();
    let mut j = start;
    while j < end
        invariant
            start <= j <= end <= cs.len(),
            out@ =~= cs@.subrange(start as int, j as int),
        decreases end - j,
    {
        out.push(cs[j]);
        j = j + 1;
        assert(out@ =~= cs@.subrange(start as int, j as int));
    }
    string_from_chars(out)
}

pub open spec fn digit_char(d: nat) -> char {
    if d == 0 { '0' }
    else if d == 1 { '1' }
    else if d == 2 { '2' }
    else if d == 3 { '3' }
    else if d == 4 { '4' }
    else if d == 5 { '5' }
    else if d == 6 { '6' }
    else if d == 7 { '7' }
    else if d == 8 { '8' }
    else { '9' }
}

/// The decimal digits of `n`, without leading zeros.
pub open spec fn decimal(n: nat) -> Seq<char>
    decreases n,
{
    if n < 10 {
        seq![digit_char(n)]
    } else {
        decimal(n / 10) + seq![digit_char(n % 10)]
    }
}

fn digit_of(d: u64) -> (c: char)
    requires
        d < 10,
    ensures
        c == digit_char(d as nat),
{
    if d == 0 { '0' }
    else if d == 1 { '1' }
    else if d == 2 { '2' }
    else if d == 3 { '3' }
    else if d == 4 { '4' }
    else if d == 5 { '5' }
    else if d == 6 { '6' }
    else if d == 7 { '7' }
    else if d == 8 { '8' }
    else { '9' }
}

fn push_decimal(out: &mut Vec<char>, n: u64)
    ensures
        final(out)@ == old(out)@ + decimal(n as nat),
    decreases n,
{
    if n >= 10 {
        push_decimal(out, n / 10);
    }
    out.push(digit_of(n % 10));
}

/// The decimal form of `n`.
pub fn decimal_string(n: u64) -> (r: String)
    ensures
        r@ == decimal(n as nat),
{
    let mut out: Vec<char> = Vec::new();
    push_decimal(&mut out, n);
    assert(out@ =~= decimal(n as nat));
    string_from_chars(out)
}

/// The pieces of `s` between `sep` characters, each kept verbatim; there is
/// always at least one piece.
pub open spec fn split_by(s: Seq<char>, sep: char) -> Seq<Seq<char>>
    decreases s.len(),
{
    if s.len() == 0 {
        seq![Seq::<char>::empty()]
    } else {
        let p = split_by(s.drop_last(), sep);
        if s.last() == sep {
            p.push(Seq::<char>::empty())
        } else {
            p.update(p.len() - 1, p.last().push(s.last()))
        }
    }
}

pub proof fn lemma_split_by_nonempty(s: Seq<char>, sep: char)
    ensures
        split_by(s, sep).len() >= 1,
    decreases s.len(),
{
    if s.len() > 0 {
        lemma_split_by_nonempty(s.drop_last(), sep);
    }
}

/// The texts of a list of strings.
pub open spec fn views(v: Seq<String>) -> Seq<Seq<char>> {
    v.map_values(|x: String| x@)
}

/// The pieces of `cs[start..end]` between `sep` characters.
pub fn split_range(cs: &Vec<char>, start: usize, end: usize, sep: char) -> (r: Vec<String>)
    requires
        start <= end <= cs.len(),
    ensures
        views(r@) == split_by(cs@.subrange(start as int, end as int), sep),
{
    let mut r: Vec<String> = Vec::new();
    let mut line_start = start;
    let mut i = start;
    assert(cs@.subrange(start as int, start as int) =~= Seq::<char>::empty());
    assert(views(r@).push(cs@.subrange(start as int, start as int)) =~= seq![Seq::<char>::empty()]);
    while i < end
        invariant
            start <= line_start <= i <= end <= cs.len(),
            split_by(cs@.subrange(start as int, i as int), sep) == views(r@).push(
                cs@.subrange(line_start as int, i as int),
            ),
        decreases end - i,
    {
        let ghost t = cs@.subrange(start as int, i as int + 1);
        assert(t.drop_last() =~= cs@.subrange(start as int, i as int));
        assert(t.last() == cs@[i as int]);
        if cs[i] == sep {
            let piece = string_of_range(cs, line_start, i);
            let ghost before = views(r@);
            r.push(piece);
            assert(views(r@) =~= before.push(cs@.subrange(line_start as int, i as int)));
            line_start = i + 1;
            assert(cs@.subrange(line_start as int, i as int + 1) =~= Seq::<char>::empty());
        } else {
            proof {
                let cur = cs@.subrange(line_start as int, i as int);
                let p = views(r@).push(cur);
                assert(cur.push(cs@[i as int]) =~= cs@.subrange(line_start as int, i as int + 1));
                assert(p.update(p.len() - 1, p.last().push(cs@[i as int])) =~= views(r@).push(
                    cs@.subrange(line_start as int, i as int + 1),
                ));
            }
        }
        i = i + 1;
    }
    let last = string_of_range(cs, line_start, end);
    let ghost before = views(r@);
    r.push(last);
    assert(views(r@) =~= before.push(cs@.subrange(line_start as int, end as int)));
    r
}

/// The pieces of `s` between `sep` characters.
pub fn split_str(s: &str, sep: char) -> (r: Vec<String>)
    ensures
        views(r@) == split_by(s@, sep),
{
    let cs = chars_of(s);
    let r = split_range(&cs, 0, cs.len(), sep);
    assert(cs@.subrange(0, cs.len() as int) =~= s@);
    r
}

/// A character with the Unicode `White_Space` property.
pub open spec fn is_ws(c: char) -> bool {
    c == '\t' || c == '\n' || c == '\u{0B}' || c == '\u{0C}' || c == '\r' || c == ' '
        || c == '\u{85}' || c == '\u{A0}' || c == '\u{1680}' || ('\u{2000}' <= c && c <= '\u{200A}')
        || c == '\u{2028}' || c == '\u{2029}' || c == '\u{202F}' || c == '\u{205F}'
        || c == '\u{3000}'
}

fn is_ws_char(c: char) -> (r: bool)
    ensures
        r == is_ws(c),
{
    c == '\t' || c == '\n' || c == '\u{0B}' || c == '\u{0C}' || c == '\r' || c == ' '
        || c == '\u{85}' || c == '\u{A0}' || c == '\u{1680}' || ('\u{2000}' <= c && c <= '\u{200A}')
        || c == '\u{2028}' || c == '\u{2029}' || c == '\u{202F}' || c == '\u{205F}'
        || c == '\u{3000}'
}

/// `s` without its leading whitespace.
pub open spec fn trim_start(s: Seq<char>) -> Seq<char>
    decreases s.len(),
{
    if s.len() > 0 && is_ws(s[0]) {
        trim_start(s.drop_first())
    } else {
        s
    }
}

/// `s` without its trailing whitespace.
pub open spec fn trim_end(s: Seq<char>) -> Seq<char>
    decreases s.len(),
{
    if s.len() > 0 && is_ws(s.last()) {
        trim_end(s.drop_last())
    } else {
        s
    }
}

/// `s` without leading and trailing whitespace.
pub open spec fn trim(s: Seq<char>) -> Seq<char> {
    trim_end(trim_start(s))
}

proof fn lemma_trim_start_at(s: Seq<char>, a: int)
    requires
        0 <= a <= s.len(),
        forall|i: int| 0 <= i < a ==> is_ws(#[trigger] s[i]),
        a == s.len() || !is_ws(s[a]),
    ensures
        trim_start(s) == s.subrange(a, s.len() as int),
    decreases a,
{
    if a == 0 {
        assert(s.subrange(0, s.len() as int) =~= s);
    } else {
        let t = s.drop_first();
        assert forall|i: int| 0 <= i < a - 1 implies is_ws(#[trigger] t[i]) by {
            assert(t[i] == s[i + 1]);
        }
        if a - 1 < t.len() {
            assert(t[a - 1] == s[a]);
        }
        lemma_trim_start_at(t, a - 1);
        assert(is_ws(s[0]));
        assert(t.subrange(a - 1, t.len() as int) =~= s.subrange(a, s.len() as int));
    }
}

proof fn lemma_trim_end_at(s: Seq<char>, b: int)
    requires
        0 <= b <= s.len(),
        forall|i: int| b <= i < s.len() ==> is_ws(#[trigger] s[i]),
        b == 0 || !is_ws(s[b - 1]),
    ensures
        trim_end(s) == s.subrange(0, b),
    decreases s.len() - b,
{
    if b == s.len() {
        assert(s.subrange(0, b) =~= s);
        if s.len() > 0 {
            assert(s.last() == s[b - 1]);
        }
    } else {
        let t = s.drop_last();
        assert forall|i: int| b <= i < t.len() implies is_ws(#[trigger] t[i]) by {
            assert(t[i] == s[i]);
        }
        if b > 0 {
            assert(t[b - 1] == s[b - 1]);
        }
        lemma_trim_end_at(t, b);
        assert(is_ws(s[s.len() - 1]));
        assert(t.subrange(0, b) =~= s.subrange(0, b));
    }
}

/// Bounds `(a, b)` such that `cs[a..b]` is `cs[start..end]` trimmed.
pub fn trim_range(cs: &Vec<char>, start: usize, end: usize) -> (r: (usize, usize))
    requires
        start <= end <= cs.len(),
    ensures
        start <= r.0 <= r.1 <= end,
        cs@.subrange(r.0 as int, r.1 as int) == trim(cs@.subrange(start as int, end as int)),
{
    let ghost s = cs@.subrange(start as int, end as int);
    let mut a = start;
    while a < end && is_ws_char(cs[a])
        invariant
            start <= a <= end <= cs.len(),
            forall|i: int| start <= i < a ==> is_ws(#[trigger] cs@[i]),
        decreases end - a,
    {
        a = a + 1;
    }
    proof {
        assert forall|i: int| 0 <= i < a - start implies is_ws(#[trigger] s[i]) by {
            assert(s[i] == cs@[start + i]);
        }
        if a < end {
            assert(s[a - start] == cs@[a as int]);
        }
        lemma_trim_start_at(s, a - start);
        assert(s.subrange(a - start, s.len() as int) =~= cs@.subrange(a as int, end as int));
    }
    let ghost u = cs@.subrange(a as int, end as int);
    let mut b = end;
    while b > a && is_ws_char(cs[b - 1])
        invariant
            start <= a <= b <= end <= cs.len(),
            forall|i: int| b <= i < end ==> is_ws(#[trigger] cs@[i]),
        decreases b - a,
    {
        b = b - 1;
    }
    proof {
        assert forall|i: int| b - a <= i < u.len() implies is_ws(#[trigger] u[i]) by {
            assert(u[i] == cs@[a + i]);
        }
        if b > a {
            assert(u[b - a - 1] == cs@[b - 1]);
        }
        lemma_trim_end_at(u, b - a);
        assert(u.subrange(0, b - a) =~= cs@.subrange(a as int, b as int));
    }
    (a, b)
}

/// `s` without trailing whitespace.
pub fn trim_end_str(s: &str) -> (r: String)
    ensures
        r@ == trim_end(s@),
{
    let cs = chars_of(s);
    let mut b = cs.len();
    while b > 0 && is_ws_char(cs[b - 1])
        invariant
            b <= cs.len(),
            forall|i: int| b <= i < cs.len() ==> is_ws(#[trigger] cs@[i]),
        decreases b,
    {
        b = b - 1;
    }
    proof {
        lemma_trim_end_at(cs@, b as int);
    }
    string_of_range(&cs, 0, b)
}

/// `s` without leading and trailing whitespace.
pub fn trim_str(s: &str) -> (r: String)
    ensures
        r@ == trim(s@),
{
    let cs = chars_of(s);
    let (a, b) = trim_range(&cs, 0, cs.len());
    assert(cs@.subrange(0, cs.len() as int) =~= s@);
    string_of_range(&cs, a, b)
}

/// The lines joined with a single `'\n'` between neighbours.
pub open spec fn join_lines(ls: Seq<Seq<char>>) -> Seq<char>
    decreases ls.len(),
{
    if ls.len() == 0 {
        Seq::<char>::empty()
    } else if ls.len() == 1 {
        ls[0]
    } else {
        join_lines(ls.drop_last()) + seq!['\n'] + ls.last()
    }
}

/// The strings `v[from..]` joined with a single `'\n'` between neighbours.
pub fn join_from(v: &Vec<String>, from: usize) -> (r: String)
    requires
        from <= v.len(),
    ensures
        r@ == join_lines(views(v@).skip(from as int)),
{
    let mut out: Vec<char> = Vec::new();
    let mut k = from;
    assert(views(v@).subrange(from as int, from as int) =~= Seq::<Seq<char>>::empty());
    while k < v.len()
        invariant
            from <= k <= v.len(),
            out@ == join_lines(views(v@).subrange(from as int, k as int)),
        decreases v.len() - k,
    {
        let ghost ls = views(v@).subrange(from as int, k as int + 1);
        assert(ls.drop_last() =~= views(v@).subrange(from as int, k as int));
        assert(ls.last() == v@[k as int]@);
        let cs = chars_of(v[k].as_str());
        if k > from {
            out.push('\n');
        }
        let ghost before = out@;
        let mut j: usize = 0;
        while j < cs.len()
            invariant
                j <= cs.len(),
                out@ == before + cs@.take(j as int),
            decreases cs.len() - j,
        {
            out.push(cs[j]);
            j = j + 1;
            assert(out@ =~= before + cs@.take(j as int));
        }
        assert(cs@.take(cs.len() as int) =~= cs@);
        assert(out@ =~= join_lines(ls));
        k = k + 1;
    }
    assert(views(v@).subrange(from as int, v.len() as int) =~= views(v@).skip(from as int));
    string_from_chars(out)
}

/// `l` without one trailing carriage return.
pub open spec fn strip_cr(l: Seq<char>) -> Seq<char> {
    if l.len() > 0 && l.last() == '\r' {
        l.drop_last()
    } else {
        l
    }
}

/// The lines of a text as `str::lines` yields them: split at `'\n'`, a
/// `'\r'` right before a `'\n'` dropped, and a final empty piece (after a
/// last line ending, or of an empty text) not counted.
pub open spec fn text_lines(s: Seq<char>) -> Seq<Seq<char>> {
    let ps = split_by(s, '\n');
    let n = ps.len() as int;
    if ps[n - 1].len() == 0 {
        Seq::new((n - 1) as nat, |i: int| strip_cr(ps[i]))
    } else {
        Seq::new(n as nat, |i: int| if i < n - 1 { strip_cr(ps[i]) } else { ps[i] })
    }
}

fn strip_cr_string(l: &String) -> (r: String)
    ensures
        r@ == strip_cr(l@),
{
    let cs = chars_of(l.as_str());
    let n = cs.len();
    if n > 0 && cs[n - 1] == '\r' {
        let r = string_of_range(&cs, 0, n - 1);
        assert(cs@.subrange(0, n - 1) =~= l@.drop_last());
        r
    } else {
        let r = string_of_range(&cs, 0, n);
        assert(cs@.subrange(0, n as int) =~= l@);
        r
    }
}

/// The lines of `s`, as `str::lines` yields them.
pub fn lines_of(s: &str) -> (r: Vec<String>)
    ensures
        views(r@) == text_lines(s@),
{
    let ps = split_str(s, '\n');
    proof {
        lemma_split_by_nonempty(s@, '\n');
    }
    let n = ps.len();
    let last_empty = ps[n - 1].as_str().is_empty();
    let count = if last_empty { n - 1 } else { n };
    let mut r: Vec<String> = Vec::new();
    let mut i: usize = 0;
    while i < count
        invariant
            n == ps.len(),
            n >= 1,
            views(ps@) == split_by(s@, '\n'),
            count == (if last_empty { n - 1 } else { n as int }),
            last_empty == (ps@[n - 1]@.len() == 0),
            i <= count,
            r.len() == i,
            forall|k: int| 0 <= k < i ==> #[trigger] r@[k]@ == text_lines(s@)[k],
        decreases count - i,
    {
        assert(views(ps@)[i as int] == ps@[i as int]@);
        let piece = if i < n - 1 { strip_cr_string(&ps[i]) } else { ps[i].clone() };
        r.push(piece);
        i = i + 1;
    }
    assert(views(r@) =~= text_lines(s@));
    r
}

/// Position of the first `c` in `s`, or -1 when there is none.
pub open spec fn first_index(s: Seq<char>, c: char) -> int
    decreases s.len(),
{
    if s.len() == 0 {
        -1
    } else if s[0] == c {
        0
    } else {
        let k = first_index(s.drop_first(), c);
        if k < 0 {
            -1
        } else {
            k + 1
        }
    }
}

proof fn lemma_first_index_at(s: Seq<char>, c: char, i: int)
    requires
        0 <= i <= s.len(),
        forall|j: int| 0 <= j < i ==> #[trigger] s[j] != c,
        i == s.len() || s[i] == c,
    ensures
        first_index(s, c) == (if i == s.len() { -1 } else { i }),
    decreases i,
{
    if i > 0 {
        let t = s.drop_first();
        assert forall|j: int| 0 <= j < i - 1 implies #[trigger] t[j] != c by {
            assert(t[j] == s[j + 1]);
        }
        if i < s.len() {
            assert(t[i - 1] == s[i]);
        }
        lemma_first_index_at(t, c, i - 1);
        assert(s[0] != c);
    }
}

/// At most `n` pieces: split at the first `n - 1` occurrences of `sep`, the
/// rest of the text left whole in the last piece (as `str::splitn`).
pub open spec fn splitn(s: Seq<char>, n: nat, sep: char) -> Seq<Seq<char>>
    decreases n,
{
    if n <= 1 {
        seq![s]
    } else {
        let i = first_index(s, sep);
        if i < 0 {
            seq![s]
        } else {
            seq![s.take(i)] + splitn(s.skip(i + 1), (n - 1) as nat, sep)
        }
    }
}

/// Position of the first `sep` in `cs[start..end]`, counted from `start`,
/// or `end`.
fn find_in_range(cs: &Vec<char>, start: usize, end: usize, sep: char) -> (r: usize)
    requires
        start <= end <= cs.len(),
    ensures
        start <= r <= end,
        first_index(cs@.subrange(start as int, end as int), sep) == (if r == end { -1 } else { r - start }),
{
    let ghost s = cs@.subrange(start as int, end as int);
    let mut i = start;
    while i < end && cs[i] != sep
        invariant
            start <= i <= end <= cs.len(),
            forall|j: int| start <= j < i ==> #[trigger] cs@[j] != sep,
        decreases end - i,
    {
        i = i + 1;
    }
    proof {
        assert forall|j: int| 0 <= j < i - start implies #[trigger] s[j] != sep by {
            assert(s[j] == cs@[start + j]);
        }
        if i < end {
            assert(s[i - start] == cs@[i as int]);
        }
        lemma_first_index_at(s, sep, i - start);
    }
    i
}

fn splitn_range(cs: &Vec<char>, start: usize, end: usize, n: usize, sep: char) -> (r: Vec<String>)
    requires
        start <= end <= cs.len(),
    ensures
        views(r@) == splitn(cs@.subrange(start as int, end as int), n as nat, sep),
    decreases n,
{
    let ghost s = cs@.subrange(start as int, end as int);
    let mut r: Vec<String> = Vec::new();
    if n <= 1 {
        r.push(string_of_range(cs, start, end));
        assert(views(r@) =~= seq![s]);
        return r;
    }
    let i = find_in_range(cs, start, end, sep);
    if i == end {
        r.push(string_of_range(cs, start, end));
        assert(views(r@) =~= seq![s]);
        return r;
    }
    r.push(string_of_range(cs, start, i));
    let rest = splitn_range(cs, i + 1, end, n - 1, sep);
    let mut k: usize = 0;
    while k < rest.len()
        invariant
            k <= rest.len(),
            r.len() == k + 1,
            r@[0]@ == cs@.subrange(start as int, i as int),
            forall|u: int| 0 <= u < k ==> #[trigger] r@[u + 1]@ == rest@[u]@,
        decreases rest.len() - k,
    {
        r.push(rest[k].clone());
        k = k + 1;
    }
    proof {
        assert(views(r@) =~= seq![cs@.subrange(start as int, i as int)] + views(rest@)) by {
            assert forall|u: int| 0 <= u < r.len() implies #[trigger] views(r@)[u] == (seq![cs@.subrange(start as int, i as int)] + views(rest@))[u] by {
                if u > 0 {
                    assert(r@[(u - 1) + 1]@ == rest@[u - 1]@);
                }
            }
        }
        let i2 = i - start;
        assert(s.take(i2) =~= cs@.subrange(start as int, i as int));
        assert(s.skip(i2 + 1) =~= cs@.subrange(i as int + 1, end as int));
        assert(views(r@) =~= seq![s.take(i2)] + splitn(s.skip(i2 + 1), (n - 1) as nat, sep));
    }
    r
}

/// At most `n` pieces of `s`, as `str::splitn` gives them.
pub fn splitn_str(s: &str, n: usize, sep: char) -> (r: Vec<String>)
    ensures
        views(r@) == splitn(s@, n as nat, sep),
{
    let cs = chars_of(s);
    assert(cs@.subrange(0, cs.len() as int) =~= s@);
    splitn_range(&cs, 0, cs.len(), n, sep)
}

/// `s` with the leading `p` removed, when `s` starts with `p`.
pub open spec fn strip_prefix(s: Seq<char>, p: Seq<char>) -> Option<Seq<char>> {
    if p.len() <= s.len() && s.take(p.len() as int) == p {
        Some(s.skip(p.len() as int))
    } else {
        None
    }
}

/// `s` with the trailing `p` removed, when `s` ends with `p`.
pub open spec fn strip_suffix(s: Seq<char>, p: Seq<char>) -> Option<Seq<char>> {
    if p.len() <= s.len() && s.skip(s.len() - p.len()) == p {
        Some(s.take(s.len() - p.len()))
    } else {
        None
    }
}

fn range_equals(cs: &Vec<char>, start: usize, ps: &Vec<char>) -> (r: bool)
    requires
        start + ps.len() <= cs.len(),
    ensures
        r == (cs@.subrange(start as int, start + ps.len()) == ps@),
{
    let mut k: usize = 0;
    while k < ps.len()
        invariant
            start + ps.len() <= cs.len(),
            k <= ps.len(),
            forall|u: int| 0 <= u < k ==> cs@[start + u] == ps@[u],
        decreases ps.len() - k,
    {
        if cs[start + k] != ps[k] {
            assert(cs@.subrange(start as int, start + ps.len())[k as int] != ps@[k as int]);
            return false;
        }
        k = k + 1;
    }
    assert(cs@.subrange(start as int, start + ps.len()) =~= ps@);
    true
}

/// `s` without the leading `p`, when it starts with it.
pub fn strip_prefix_str(s: &str, p: &str) -> (r: Option<String>)
    ensures
        r is Some <==> strip_prefix(s@, p@) is Some,
        r is Some ==> r->0@ == strip_prefix(s@, p@)->0,
{
    let cs = chars_of(s);
    let ps = chars_of(p);
    if ps.len() > cs.len() {
        return None;
    }
    if !range_equals(&cs, 0, &ps) {
        assert(cs@.subrange(0, ps.len() as int) =~= s@.take(p@.len() as int));
        return None;
    }
    assert(cs@.subrange(0, ps.len() as int) =~= s@.take(p@.len() as int));
    let r = string_of_range(&cs, ps.len(), cs.len());
    assert(cs@.subrange(ps.len() as int, cs.len() as int) =~= s@.skip(p@.len() as int));
    Some(r)
}

/// `s` without the trailing `p`, when it ends with it.
pub fn strip_suffix_str(s: &str, p: &str) -> (r: Option<String>)
    ensures
        r is Some <==> strip_suffix(s@, p@) is Some,
        r is Some ==> r->0@ == strip_suffix(s@, p@)->0,
{
    let cs = chars_of(s);
    let ps = chars_of(p);
    if ps.len() > cs.len() {
        return None;
    }
    let start = cs.len() - ps.len();
    if !range_equals(&cs, start, &ps) {
        assert(cs@.subrange(start as int, cs.len() as int) =~= s@.skip(s@.len() - p@.len()));
        return None;
    }
    assert(cs@.subrange(start as int, cs.len() as int) =~= s@.skip(s@.len() - p@.len()));
    let r = string_of_range(&cs, 0, start);
    assert(cs@.subrange(0, start as int) =~= s@.take(s@.len() - p@.len()));
    Some(r)
}

pub open spec fn digit_value(c: char) -> nat {
    (c as u32 - '0' as u32) as nat
}

/// The number that the decimal digits `s` spell.
pub open spec fn digits_value(s: Seq<char>) -> nat
    decreases s.len(),
{
    if s.len() == 0 {
        0
    } else {
        digits_value(s.drop_last()) * 10 + digit_value(s.last())
    }
}

pub open spec fn all_digits(s: Seq<char>) -> bool {
    forall|i: int| 0 <= i < s.len() ==> '0' <= #[trigger] s[i] && s[i] <= '9'
}

/// `s` without one leading `+`.
pub open spec fn unsigned_part(s: Seq<char>) -> Seq<char> {
    if s.len() > 0 && s[0] == '+' {
        s.drop_first()
    } else {
        s
    }
}

/// The `u16` that `str::parse` reads from `s`: an optional `+`, then one or
/// more decimal digits whose value is below 65536.
pub open spec fn parse_u16(s: Seq<char>) -> Option<u16> {
    let d = unsigned_part(s);
    if d.len() > 0 && all_digits(d) && digits_value(d) < 65536 {
        Some(digits_value(d) as u16)
    } else {
        None
    }
}

proof fn lemma_digits_value_prefix_grows(s: Seq<char>, k: int)
    requires
        0 <= k <= s.len(),
        all_digits(s),
    ensures
        digits_value(s.take(k)) <= digits_value(s),
    decreases s.len() - k,
{
    if k < s.len() {
        let t = s.drop_last();
        assert(all_digits(t)) by {
            assert forall|i: int| 0 <= i < t.len() implies '0' <= #[trigger] t[i] && t[i] <= '9' by {
                assert(t[i] == s[i]);
            }
        }
        lemma_digits_value_prefix_grows(t, k);
        assert(t.take(k) =~= s.take(k));
        assert(digits_value(s) == digits_value(t) * 10 + digit_value(s.last()));
    } else {
        assert(s.take(k) =~= s);
    }
}

/// The `u16` that `str::parse` reads from `s`, if any.
pub fn parse_u16_str(s: &str) -> (r: Option<u16>)
    ensures
        r == parse_u16(s@),
{
    let cs = chars_of(s);
    let start: usize = if cs.len() > 0 && cs[0] == '+' { 1 } else { 0 };
    let ghost d = unsigned_part(s@);
    assert(cs@.subrange(start as int, cs.len() as int) =~= d);
    if start == cs.len() {
        return None;
    }
    let mut v: u32 = 0;
    let mut i = start;
    while i < cs.len()
        invariant
            start <= i <= cs.len(),
            d == unsigned_part(s@),
            d == cs@.subrange(start as int, cs.len() as int),
            all_digits(cs@.subrange(start as int, i as int)),
            v as nat == digits_value(cs@.subrange(start as int, i as int)),
            v < 65536,
        decreases cs.len() - i,
    {
        let c = cs[i];
        if !('0' <= c && c <= '9') {
            assert(d[i - start] == c);
            assert(!all_digits(d));
            return None;
        }
        let ghost p = cs@.subrange(start as int, i as int + 1);
        assert(p.drop_last() =~= cs@.subrange(start as int, i as int));
        assert(all_digits(p)) by {
            assert forall|u: int| 0 <= u < p.len() implies '0' <= #[trigger] p[u] && p[u] <= '9' by {
                if u < p.len() - 1 {
                    assert(p[u] == cs@.subrange(start as int, i as int)[u]);
                }
            }
        }
        let nv = v * 10 + (c as u32 - '0' as u32);
        if nv >= 65536 {
            proof {
                assert(digits_value(p) == digits_value(p.drop_last()) * 10 + digit_value(p.last()));
                assert(digits_value(p) == nv);
                if all_digits(d) {
                    assert(p =~= d.take(i + 1 - start));
                    lemma_digits_value_prefix_grows(d, i + 1 - start);
                }
            }
            return None;
        }
        v = nv;
        i = i + 1;
    }
    Some(v as u16)
}

/// Position of the last `c` in `s`, or -1 when there is none.
pub open spec fn last_index(s: Seq<char>, c: char) -> int
    decreases s.len(),
{
    if s.len() == 0 {
        -1
    } else if s.last() == c {
        s.len() - 1
    } else {
        last_index(s.drop_last(), c)
    }
}

/// Position of the last `c` in `cs`, if any.
pub fn find_last(cs: &Vec<char>, c: char) -> (r: Option<usize>)
    ensures
        r is Some <==> last_index(cs@, c) >= 0,
        r is Some ==> r->0 == last_index(cs@, c) && r->0 < cs.len(),
{
    let mut i = cs.len();
    assert(cs@.take(i as int) =~= cs@);
    while i > 0
        invariant
            i <= cs.len(),
            last_index(cs@, c) == last_index(cs@.take(i as int), c),
        decreases i,
    {
        let ghost t = cs@.take(i as int);
        assert(t.last() == cs@[i - 1]);
        if cs[i - 1] == c {
            return Some(i - 1);
        }
        assert(t.drop_last() =~= cs@.take(i - 1));
        i = i - 1;
    }
    None
}

} // verus!
