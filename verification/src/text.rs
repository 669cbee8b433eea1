//! Character-level text operations over `Seq<char>`: whitespace, trimming,
//! substring search, line splitting and joining.  Every executable helper
//! here is proved against the spec function of the same meaning.

use vstd::prelude::*;

verus! {

/// Unicode `White_Space`, the set of characters that `char::is_whitespace`
/// accepts.
pub open spec fn is_whitespace(c: char) -> bool {
    ||| c == ' '
    ||| ('\u{9}' <= c && c <= '\u{d}')
    ||| c == '\u{85}'
    ||| c == '\u{a0}'
    ||| c == '\u{1680}'
    ||| ('\u{2000}' <= c && c <= '\u{200a}')
    ||| c == '\u{2028}'
    ||| c == '\u{2029}'
    ||| c == '\u{202f}'
    ||| c == '\u{205f}'
    ||| c == '\u{3000}'
}

/// `s` without its leading whitespace.
pub open spec fn trim_start(s: Seq<char>) -> Seq<char>
    decreases s.len(),
{
    if s.len() > 0 && is_whitespace(s[0]) {
        trim_start(s.drop_first())
    } else {
        s
    }
}

/// `s` without its trailing whitespace.
pub open spec fn trim_end(s: Seq<char>) -> Seq<char>
    decreases s.len(),
{
    if s.len() > 0 && is_whitespace(s.last()) {
        trim_end(s.drop_last())
    } else {
        s
    }
}

/// `s` without leading and trailing whitespace.
pub open spec fn trim(s: Seq<char>) -> Seq<char> {
    trim_end(trim_start(s))
}

/// `p` occurs in `s` starting at index `i`.
pub open spec fn occurs_at(s: Seq<char>, p: Seq<char>, i: int) -> bool {
    0 <= i && i + p.len() <= s.len() && s.subrange(i, i + p.len()) == p
}

/// `s` begins with `p`.
pub open spec fn starts_with(s: Seq<char>, p: Seq<char>) -> bool {
    occurs_at(s, p, 0)
}

/// `p` occurs somewhere in `s`.
pub open spec fn contains(s: Seq<char>, p: Seq<char>) -> bool {
    exists|i: int| occurs_at(s, p, i)
}

/// The index of the leftmost occurrence of `p` in `s`, or `s.len()` when
/// there is none.
pub open spec fn index_of(s: Seq<char>, p: Seq<char>) -> int
    decreases s.len(),
{
    if p.len() > s.len() {
        s.len() as int
    } else if s.take(p.len() as int) == p {
        0
    } else if s.len() == 0 {
        0
    } else {
        1 + index_of(s.drop_first(), p)
    }
}

/// `l` without one trailing carriage return.
pub open spec fn strip_cr(l: Seq<char>) -> Seq<char> {
    if l.len() > 0 && l.last() == '\r' {
        l.drop_last()
    } else {
        l
    }
}

/// The lines of `s`, as `str::lines` yields them: split at `\n`, a `\r`
/// right before a `\n` dropped with it, and no empty line after a final
/// `\n`.
pub open spec fn lines(s: Seq<char>) -> Seq<Seq<char>>
    decreases s.len(),
{
    if s.len() == 0 {
        seq![]
    } else {
        let k = index_of(s, seq!['\n']);
        proof {
            lemma_index_of_bounds(s, seq!['\n']);
        }
        if k >= s.len() {
            seq![s]
        } else {
            seq![strip_cr(s.take(k))] + lines(s.skip(k + 1))
        }
    }
}

/// The parts joined, with `sep` between each two neighbours.
pub open spec fn join(parts: Seq<Seq<char>>, sep: Seq<char>) -> Seq<char>
    decreases parts.len(),
{
    if parts.len() == 0 {
        seq![]
    } else if parts.len() == 1 {
        parts[0]
    } else {
        join(parts.drop_last(), sep) + sep + parts.last()
    }
}

/// The views of a sequence of strings.
pub open spec fn views(v: Seq<String>) -> Seq<Seq<char>> {
    v.map_values(|x: String| x@)
}

// ---------------------------------------------------------------------------
// Lemmas
// ---------------------------------------------------------------------------

/// `index_of` lies within `0..=s.len()`, and an index below `s.len()` is an
/// occurrence before which there is none.
pub proof fn lemma_index_of_bounds(s: Seq<char>, p: Seq<char>)
    ensures
        0 <= index_of(s, p) <= s.len(),
        index_of(s, p) < s.len() ==> occurs_at(s, p, index_of(s, p)),
        forall|j: int| 0 <= j < index_of(s, p) ==> !occurs_at(s, p, j),
    decreases s.len(),
{
    if p.len() > s.len() {
        assert forall|j: int| 0 <= j < index_of(s, p) implies !occurs_at(s, p, j) by {}
    } else if s.take(p.len() as int) == p {
        assert(s.subrange(0, p.len() as int) =~= s.take(p.len() as int));
    } else if s.len() == 0 {
    } else {
        let t = s.drop_first();
        lemma_index_of_bounds(t, p);
        let k = index_of(t, p);
        if k < t.len() {
            assert(s.subrange(k + 1, k + 1 + p.len()) =~= t.subrange(k, k + p.len()));
        }
        assert forall|j: int| 0 <= j < index_of(s, p) implies !occurs_at(s, p, j) by {
            if j == 0 {
                assert(s.subrange(0, p.len() as int) =~= s.take(p.len() as int));
            } else {
                if occurs_at(s, p, j) {
                    assert(s.subrange(j, j + p.len()) =~= t.subrange(j - 1, j - 1 + p.len()));
                    assert(occurs_at(t, p, j - 1));
                }
            }
        }
    }
}


/// An index with no occurrence before it, which is either an occurrence or
/// the end of `s`, is `index_of`.
pub proof fn lemma_index_of_is(s: Seq<char>, p: Seq<char>, k: int)
    requires
        0 <= k <= s.len(),
        forall|j: int| 0 <= j < k ==> !occurs_at(s, p, j),
        k == s.len() || occurs_at(s, p, k),
    ensures
        index_of(s, p) == k,
{
    lemma_index_of_bounds(s, p);
    let m = index_of(s, p);
    if m < k {
        assert(occurs_at(s, p, m));
    }
    if m > k {
        assert(!occurs_at(s, p, k));
    }
}

/// An occurrence in a suffix is an occurrence in the whole at the shifted
/// index.
pub proof fn lemma_occurs_skip(s: Seq<char>, p: Seq<char>, from: int, j: int)
    requires
        0 <= from <= s.len(),
        0 <= j,
    ensures
        occurs_at(s.skip(from), p, j) == occurs_at(s, p, from + j),
{
    if j + p.len() <= s.len() - from {
        assert(s.skip(from).subrange(j, j + p.len()) =~= s.subrange(from + j, from + j + p.len()));
    }
}

/// `p` occurs in `s` exactly when `index_of` finds it before the end.
pub proof fn lemma_contains_index_of(s: Seq<char>, p: Seq<char>)
    requires
        p.len() > 0,
    ensures
        contains(s, p) <==> index_of(s, p) < s.len(),
{
    lemma_index_of_bounds(s, p);
    if contains(s, p) {
        let i = choose|i: int| occurs_at(s, p, i);
        if index_of(s, p) >= s.len() {
            assert(!occurs_at(s, p, i));
        }
    }
}

/// Joining a first part to a non-empty list puts one separator after it.
pub proof fn lemma_join_prepend(a: Seq<char>, l: Seq<Seq<char>>, sep: Seq<char>)
    requires
        l.len() > 0,
    ensures
        join(seq![a] + l, sep) == a + sep + join(l, sep),
    decreases l.len(),
{
    let x = seq![a] + l;
    if l.len() == 1 {
        assert(x.drop_last() =~= seq![a]);
        assert(x.last() == l[0]);
        assert(join(seq![a], sep) == a);
        assert(join(l, sep) == l[0]);
        assert(join(x, sep) == join(x.drop_last(), sep) + sep + x.last());
    } else {
        assert(x.drop_last() =~= seq![a] + l.drop_last());
        lemma_join_prepend(a, l.drop_last(), sep);
        assert(x.last() == l.last());
        assert(join(x, sep) == join(x.drop_last(), sep) + sep + x.last());
        assert(join(l, sep) == join(l.drop_last(), sep) + sep + l.last());
        assert(join(x, sep) =~= a + sep + (join(l.drop_last(), sep) + sep + l.last()));
    }
}

/// `s` without one final newline.
pub open spec fn without_final_newline(s: Seq<char>) -> Seq<char> {
    if s.len() > 0 && s.last() == '\n' {
        s.drop_last()
    } else {
        s
    }
}

/// A text without carriage returns is its lines joined back with `\n`,
/// apart from one final newline, which `lines` does not keep.
pub proof fn lemma_lines_join_back(u: Seq<char>)
    requires
        forall|i: int| 0 <= i < u.len() ==> u[i] != '\r',
    ensures
        join(lines(u), seq!['\n']) == without_final_newline(u),
    decreases u.len(),
{
    if u.len() > 0 {
        let nl = seq!['\n'];
        let k = index_of(u, nl);
        lemma_index_of_bounds(u, nl);
        if k < u.len() {
            assert(u.subrange(k, k + 1)[0] == u[k]);
            assert(u[k] == '\n');
            let head = u.take(k);
            if k > 0 {
                assert(head.last() == u[k - 1]);
            }
            assert(strip_cr(head) == head);
            let rest = u.skip(k + 1);
            if k == u.len() - 1 {
                assert(rest.len() == 0);
                assert(lines(u) =~= seq![head] + lines(rest));
                assert(lines(u) =~= seq![head]);
                assert(head =~= u.drop_last());
            } else {
                assert forall|i: int| 0 <= i < rest.len() implies rest[i] != '\r' by {
                    assert(rest[i] == u[k + 1 + i]);
                }
                lemma_lines_join_back(rest);
                assert(lines(rest).len() > 0);
                lemma_join_prepend(head, lines(rest), nl);
                assert(rest.last() == u.last());
                if u.last() == '\n' {
                    assert(head + nl + rest.drop_last() =~= u.drop_last());
                } else {
                    assert(head + nl + rest =~= u);
                }
            }
        } else {
            assert(lines(u) =~= seq![u]);
            assert(u.last() != '\n') by {
                if u.last() == '\n' {
                    assert(u.subrange(u.len() - 1, u.len() as int) =~= nl);
                    assert(occurs_at(u, nl, u.len() - 1));
                }
            }
        }
    } else {
        assert(lines(u) =~= Seq::<Seq<char>>::empty());
        assert(join(lines(u), seq!['\n']) =~= u);
    }
}

proof fn lemma_trim_start_step(s: Seq<char>, k: int)
    requires
        0 <= k < s.len(),
        is_whitespace(s[k]),
    ensures
        trim_start(s.skip(k)) == trim_start(s.skip(k + 1)),
{
    assert(s.skip(k).drop_first() =~= s.skip(k + 1));
}

proof fn lemma_trim_end_step(s: Seq<char>, lo: int, hi: int)
    requires
        0 <= lo < hi <= s.len(),
        is_whitespace(s[hi - 1]),
    ensures
        trim_end(s.subrange(lo, hi)) == trim_end(s.subrange(lo, hi - 1)),
{
    assert(s.subrange(lo, hi).drop_last() =~= s.subrange(lo, hi - 1));
}

/// Trimming twice is trimming once.
pub proof fn lemma_trim_idempotent(s: Seq<char>)
    ensures
        trim(trim(s)) == trim(s),
{
    lemma_trim_start_of_trimmed(s);
    lemma_trim_end_keeps_start(trim_start(s));
    lemma_trim_end_idempotent(trim_start(s));
}

proof fn lemma_trim_start_of_trimmed(s: Seq<char>)
    ensures
        trim_start(trim_start(s)) == trim_start(s),
    decreases s.len(),
{
    if s.len() > 0 && is_whitespace(s[0]) {
        lemma_trim_start_of_trimmed(s.drop_first());
    }
}

proof fn lemma_trim_end_idempotent(s: Seq<char>)
    ensures
        trim_end(trim_end(s)) == trim_end(s),
    decreases s.len(),
{
    if s.len() > 0 && is_whitespace(s.last()) {
        lemma_trim_end_idempotent(s.drop_last());
    }
}

/// Removing trailing whitespace from a string without leading whitespace
/// leaves it without leading whitespace.
proof fn lemma_trim_end_keeps_start(s: Seq<char>)
    requires
        trim_start(s) == s,
    ensures
        trim_start(trim_end(s)) == trim_end(s),
    decreases s.len(),
{
    if s.len() > 0 && is_whitespace(s.last()) {
        let t = s.drop_last();
        if t.len() > 0 {
            assert(t[0] == s[0]);
            if is_whitespace(s[0]) {
                assert(trim_start(s) == trim_start(s.drop_first()));
                assert(trim_start(s).len() < s.len()) by {
                    lemma_trim_start_len(s.drop_first());
                }
            }
            assert(!is_whitespace(t[0]));
        }
        lemma_trim_end_keeps_start(t);
    }
}

proof fn lemma_trim_start_len(s: Seq<char>)
    ensures
        trim_start(s).len() <= s.len(),
    decreases s.len(),
{
    if s.len() > 0 && is_whitespace(s[0]) {
        lemma_trim_start_len(s.drop_first());
    }
}

// ---------------------------------------------------------------------------
// Executable helpers
// ---------------------------------------------------------------------------

/// The characters of `s`, in order.
pub fn chars_of(s: &str) -> (v: Vec<char>)
    ensures
        v@ == s@,
{
    let mut v: Vec<char> = Vec::new();
    for c in it: s.chars()
        invariant
            v@ == it.seq().take(it.index() as int),
            it.seq() == s@,
    {
        v.push(c);
    }
    v
}

/// Whether `c` is Unicode white space.
pub fn is_whitespace_char(c: char) -> (b: bool)
    ensures
        b == is_whitespace(c),
{
    c == ' ' || ('\u{9}' <= c && c <= '\u{d}') || c == '\u{85}' || c == '\u{a0}' || c
        == '\u{1680}' || ('\u{2000}' <= c && c <= '\u{200a}') || c == '\u{2028}' || c
        == '\u{2029}' || c == '\u{202f}' || c == '\u{205f}' || c == '\u{3000}'
}

/// `s` without leading and trailing white space.
pub fn trim_str(s: &str) -> (r: &str)
    ensures
        r@ == trim(s@),
{
    let cs = chars_of(s);
    let n = cs.len();
    let mut lo: usize = 0;
    assert(s@.skip(0) =~= s@);
    while lo < n && is_whitespace_char(cs[lo])
        invariant
            lo <= n,
            n == cs@.len(),
            cs@ == s@,
            trim_start(s@) == trim_start(s@.skip(lo as int)),
        decreases n - lo,
    {
        proof {
            lemma_trim_start_step(s@, lo as int);
        }
        lo = lo + 1;
    }
    assert(trim_start(s@) == s@.skip(lo as int));
    assert(s@.skip(lo as int) =~= s@.subrange(lo as int, n as int));
    let mut hi: usize = n;
    while hi > lo && is_whitespace_char(cs[hi - 1])
        invariant
            lo <= hi <= n,
            n == cs@.len(),
            cs@ == s@,
            trim(s@) == trim_end(s@.subrange(lo as int, hi as int)),
        decreases hi,
    {
        proof {
            lemma_trim_end_step(s@, lo as int, hi as int);
        }
        hi = hi - 1;
    }
    assert(trim_end(s@.subrange(lo as int, hi as int)) == s@.subrange(lo as int, hi as int));
    s.substring_char(lo, hi)
}

/// Whether `s` and `t` hold the same characters.
pub fn str_eq(s: &str, t: &str) -> (b: bool)
    ensures
        b == (s@ == t@),
{
    let a = chars_of(s);
    let c = chars_of(t);
    if a.len() != c.len() {
        return false;
    }
    let mut i: usize = 0;
    while i < a.len()
        invariant
            i <= a.len(),
            a.len() == c.len(),
            a@ == s@,
            c@ == t@,
            forall|m: int| 0 <= m < i ==> a@[m] == c@[m],
        decreases a.len() - i,
    {
        if a[i] != c[i] {
            return false;
        }
        i = i + 1;
    }
    assert(a@ =~= c@);
    true
}

/// Whether `p` occurs in `s` at index `i`.
pub fn occurs_at_exec(s: &Vec<char>, p: &Vec<char>, i: usize) -> (b: bool)
    ensures
        b == occurs_at(s@, p@, i as int),
{
    if p.len() > s.len() || i > s.len() - p.len() {
        return false;
    }
    let mut k: usize = 0;
    while k < p.len()
        invariant
            k <= p.len(),
            i + p.len() <= s.len(),
            forall|m: int| 0 <= m < k ==> s@[i + m] == p@[m],
        decreases p.len() - k,
    {
        if s[i + k] != p[k] {
            assert(s@.subrange(i as int, i + p.len())[k as int] != p@[k as int]);
            return false;
        }
        k = k + 1;
    }
    assert(s@.subrange(i as int, i + p.len()) =~= p@);
    true
}

/// The index of the first occurrence of `p` in `s` at or after `from`, or
/// `s.len()` when there is none.
pub fn find_from(s: &Vec<char>, p: &Vec<char>, from: usize) -> (r: usize)
    requires
        from <= s.len(),
    ensures
        r == from + index_of(s@.skip(from as int), p@),
        from <= r <= s.len(),
{
    let n = s.len();
    let mut i: usize = from;
    while i < n
        invariant
            from <= i <= n,
            n == s@.len(),
            forall|j: int| from <= j < i ==> !occurs_at(s@, p@, j),
        decreases n - i,
    {
        if occurs_at_exec(s, p, i) {
            proof {
                assert forall|j: int| 0 <= j < i - from implies !occurs_at(s@.skip(from as int), p@, j) by {
                    lemma_occurs_skip(s@, p@, from as int, j);
                }
                lemma_occurs_skip(s@, p@, from as int, i - from);
                lemma_index_of_is(s@.skip(from as int), p@, i - from);
            }
            return i;
        }
        i = i + 1;
    }
    proof {
        assert forall|j: int| 0 <= j < n - from implies !occurs_at(s@.skip(from as int), p@, j) by {
            lemma_occurs_skip(s@, p@, from as int, j);
        }
        lemma_index_of_is(s@.skip(from as int), p@, n - from);
    }
    n
}

/// Whether `p` occurs anywhere in `s`.
pub fn contains_exec(s: &Vec<char>, p: &Vec<char>) -> (b: bool)
    ensures
        b == contains(s@, p@),
{
    if p.len() == 0 {
        assert(s@.subrange(0, 0) =~= p@);
        assert(occurs_at(s@, p@, 0));
        return true;
    }
    let r = find_from(s, p, 0);
    proof {
        assert(s@.skip(0) =~= s@);
        lemma_contains_index_of(s@, p@);
    }
    r < s.len()
}

/// The lines of `s`.
pub fn split_lines(s: &str) -> (v: Vec<String>)
    ensures
        views(v@) == lines(s@),
{
    let cs = chars_of(s);
    let nl: Vec<char> = vec!['\n'];
    assert(nl@ =~= seq!['\n']);
    let n = cs.len();
    let mut out: Vec<String> = Vec::new();
    let mut st: usize = 0;
    assert(s@.skip(0) =~= s@);
    assert(views(out@) =~= Seq::<Seq<char>>::empty());
    while st < n
        invariant
            st <= n,
            n == cs@.len(),
            cs@ == s@,
            nl@ == seq!['\n'],
            views(out@) + lines(s@.skip(st as int)) == lines(s@),
        decreases n - st,
    {
        let ghost t = s@.skip(st as int);
        let k = find_from(&cs, &nl, st);
        let ghost out0 = out@;
        if k == n {
            let line = String::from_str(s.substring_char(st, n));
            out.push(line);
            proof {
                assert(line@ =~= t);
                assert(views(out@) =~= views(out0).push(t));
                assert(s@.skip(n as int) =~= Seq::<char>::empty());
                assert(lines(t) == seq![t]);
                assert(views(out@) + lines(s@.skip(n as int)) =~= views(out0) + lines(t));
            }
            st = n;
        } else {
            let end = if k > st && cs[k - 1] == '\r' {
                k - 1
            } else {
                k
            };
            let line = String::from_str(s.substring_char(st, end));
            out.push(line);
            proof {
                let kk = k - st;
                assert(t.take(kk) =~= s@.subrange(st as int, k as int));
                assert(line@ =~= strip_cr(t.take(kk)));
                assert(t.skip(kk + 1) =~= s@.skip(k + 1));
                assert(lines(t) == seq![strip_cr(t.take(kk))] + lines(t.skip(kk + 1)));
                assert(views(out@) =~= views(out0).push(line@));
                assert(views(out@) + lines(s@.skip(k + 1)) =~= views(out0) + lines(t));
            }
            st = k + 1;
        }
    }
    assert(s@.skip(n as int) =~= Seq::<char>::empty());
    assert(views(out@) + lines(s@.skip(n as int)) =~= views(out@));
    out
}

/// The strings `parts[from..]` joined with `sep` between neighbours.
pub fn join_from(parts: &Vec<String>, from: usize, sep: &str) -> (r: String)
    requires
        from <= parts@.len(),
    ensures
        r@ == join(views(parts@).skip(from as int), sep@),
{
    let n = parts.len();
    if from >= n {
        let r = String::new();
        assert(views(parts@).skip(from as int) =~= Seq::<Seq<char>>::empty());
        return r;
    }
    let mut r = parts[from].clone();
    let ghost vs = views(parts@);
    assert(vs.subrange(from as int, from + 1) =~= seq![vs[from as int]]);
    let mut i: usize = from + 1;
    while i < n
        invariant
            from < i <= n,
            n == parts@.len(),
            vs == views(parts@),
            r@ == join(vs.subrange(from as int, i as int), sep@),
        decreases n - i,
    {
        r.append(sep);
        r.append(parts[i].as_str());
        proof {
            let x = vs.subrange(from as int, i + 1);
            assert(x.drop_last() =~= vs.subrange(from as int, i as int));
            assert(x.last() == parts@[i as int]@);
        }
        i = i + 1;
    }
    assert(vs.subrange(from as int, n as int) =~= vs.skip(from as int));
    r
}

} // verus!
