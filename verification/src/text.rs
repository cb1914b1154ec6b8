//! Character-sequence utilities: whitespace, trimming, line splitting and
//! searching, stated over `Seq<char>` and implemented over `Vec<char>`.

use vstd::prelude::*;

verus! {

/// The first index `k` in `i..n` at which `p` holds, or `n` when there is none.
pub open spec fn first_from(n: int, i: int, p: spec_fn(int) -> bool) -> int
    decreases n - i,
{
    if i >= n {
        n
    } else if p(i) {
        i
    } else {
        first_from(n, i + 1, p)
    }
}

pub proof fn lemma_first_from(n: int, i: int, p: spec_fn(int) -> bool)
    requires
        i <= n,
    ensures
        i <= first_from(n, i, p) <= n,
        forall|k: int| i <= k < first_from(n, i, p) ==> !#[trigger] p(k),
        first_from(n, i, p) < n ==> p(first_from(n, i, p)),
    decreases n - i,
{
    if i < n && !p(i) {
        lemma_first_from(n, i + 1, p);
    }
}

pub proof fn lemma_first_from_unique(n: int, i: int, p: spec_fn(int) -> bool, r: int)
    requires
        i <= r <= n,
        forall|k: int| i <= k < r ==> !#[trigger] p(k),
        r < n ==> p(r),
    ensures
        first_from(n, i, p) == r,
    decreases r - i,
{
    if i < r {
        lemma_first_from_unique(n, i + 1, p, r);
    }
}

/// Unicode `White_Space`, as `char::is_whitespace` decides it.
pub open spec fn is_ws(c: char) -> bool {
    let u = c as u32;
    ||| (0x09 <= u && u <= 0x0D)
    ||| u == 0x20
    ||| u == 0x85
    ||| u == 0xA0
    ||| u == 0x1680
    ||| (0x2000 <= u && u <= 0x200A)
    ||| u == 0x2028
    ||| u == 0x2029
    ||| u == 0x202F
    ||| u == 0x205F
    ||| u == 0x3000
}

pub fn char_is_ws(c: char) -> (r: bool)
    ensures
        r == is_ws(c),
{
    let u = c as u32;
    (0x09 <= u && u <= 0x0D) || u == 0x20 || u == 0x85 || u == 0xA0 || u == 0x1680 || (0x2000
        <= u && u <= 0x200A) || u == 0x2028 || u == 0x2029 || u == 0x202F || u == 0x205F || u
        == 0x3000
}

/// Number of leading whitespace characters.
pub open spec fn lead_ws(s: Seq<char>) -> int {
    first_from(s.len() as int, 0, |k: int| !is_ws(s[k]))
}

/// Number of trailing whitespace characters.
pub open spec fn trail_ws(s: Seq<char>) -> int {
    first_from(s.len() as int, 0, |k: int| !is_ws(s[s.len() - 1 - k]))
}

pub open spec fn trim_start(s: Seq<char>) -> Seq<char> {
    s.skip(lead_ws(s))
}

pub open spec fn trim_end(s: Seq<char>) -> Seq<char> {
    s.take(s.len() - trail_ws(s))
}

/// What `str::trim` returns.
pub open spec fn trim(s: Seq<char>) -> Seq<char> {
    trim_end(trim_start(s))
}

pub open spec fn is_trimmed(s: Seq<char>) -> bool {
    s.len() == 0 || (!is_ws(s[0]) && !is_ws(s.last()))
}

/// A trimmed sequence is its own trim.
pub proof fn lemma_trim_of_trimmed(s: Seq<char>)
    requires
        is_trimmed(s),
    ensures
        trim(s) == s,
{
    if s.len() > 0 {
        lemma_first_from_unique(s.len() as int, 0, |k: int| !is_ws(s[k]), 0);
        assert(trim_start(s) == s);
        lemma_first_from_unique(s.len() as int, 0, |k: int| !is_ws(s[s.len() - 1 - k]), 0);
    } else {
        assert(trim_start(s) =~= s);
    }
    assert(trim(s) =~= s);
}

/// `trim` removes exactly the whitespace at both ends.
pub proof fn lemma_trim_pad(a: Seq<char>, s: Seq<char>, b: Seq<char>)
    requires
        is_trimmed(s),
        forall|k: int| 0 <= k < a.len() ==> is_ws(a[k]),
        forall|k: int| 0 <= k < b.len() ==> is_ws(b[k]),
    ensures
        trim(a + s + b) == s,
        s.len() > 0 ==> trim_start(a + s + b) == s + b,
{
    let t = a + s + b;
    let p = |k: int| !is_ws(t[k]);
    if s.len() > 0 {
        assert forall|k: int| 0 <= k < a.len() implies !#[trigger] p(k) by {
            assert(t[k] == a[k]);
        }
        assert(t[a.len() as int] == s[0]);
        lemma_first_from_unique(t.len() as int, 0, p, a.len() as int);
        assert(trim_start(t) =~= s + b);
        let u = s + b;
        let q = |k: int| !is_ws(u[u.len() - 1 - k]);
        assert forall|k: int| 0 <= k < b.len() implies !#[trigger] q(k) by {
            assert(u[u.len() - 1 - k] == b[b.len() - 1 - k]);
        }
        assert(u[u.len() - 1 - b.len()] == s.last());
        lemma_first_from_unique(u.len() as int, 0, q, b.len() as int);
        assert(trim(t) =~= s);
    } else {
        assert forall|k: int| 0 <= k < t.len() implies !#[trigger] p(k) by {
            if k < a.len() {
                assert(t[k] == a[k]);
            } else {
                assert(t[k] == b[k - a.len()]);
            }
        }
        lemma_first_from_unique(t.len() as int, 0, p, t.len() as int);
        assert(trim_start(t).len() == 0);
        assert(trim(t) =~= s);
    }
}

/// Trimmed text is unchanged by `trim_start`.
pub proof fn lemma_trim_start_nonws(s: Seq<char>)
    requires
        s.len() > 0,
        !is_ws(s[0]),
    ensures
        trim_start(s) == s,
{
    lemma_first_from_unique(s.len() as int, 0, |k: int| !is_ws(s[k]), 0);
}

// ---------------------------------------------------------------------------
// Lines

pub open spec fn line_end(s: Seq<char>) -> int {
    first_from(s.len() as int, 0, |k: int| s[k] == '\n')
}

/// A line without its `\r` when it was terminated by `\r\n`.
pub open spec fn strip_cr(l: Seq<char>) -> Seq<char> {
    if l.len() > 0 && l.last() == '\r' {
        l.drop_last()
    } else {
        l
    }
}

/// What `str::lines` yields: the text split at `\n`, a `\r` before the `\n`
/// removed, and no empty line after a final `\n`.
pub open spec fn lines(s: Seq<char>) -> Seq<Seq<char>>
    decreases s.len(),
{
    if s.len() == 0 {
        seq![]
    } else {
        let e = line_end(s);
        if 0 <= e < s.len() {
            seq![strip_cr(s.take(e))] + lines(s.skip(e + 1))
        } else {
            seq![s]
        }
    }
}

/// A line that `lines` gives back unchanged when it is followed by `\n`.
pub open spec fn plain_line(l: Seq<char>) -> bool {
    &&& forall|k: int| 0 <= k < l.len() ==> l[k] != '\n'
    &&& (l.len() == 0 || l.last() != '\r')
}

/// Each line followed by `\n`.
pub open spec fn join_lines(ls: Seq<Seq<char>>) -> Seq<char>
    decreases ls.len(),
{
    if ls.len() == 0 {
        seq![]
    } else {
        ls[0] + seq!['\n'] + join_lines(ls.drop_first())
    }
}

pub proof fn lemma_lines_cons(l: Seq<char>, rest: Seq<char>)
    requires
        plain_line(l),
    ensures
        lines(l + seq!['\n'] + rest) == seq![l] + lines(rest),
{
    let s = l + seq!['\n'] + rest;
    lemma_first_from_unique(s.len() as int, 0, |k: int| s[k] == '\n', l.len() as int);
    assert(s.take(l.len() as int) =~= l);
    assert(s.skip(l.len() as int + 1) =~= rest);
}

/// Splitting the joined lines gives the lines back.
pub proof fn lemma_lines_join(ls: Seq<Seq<char>>)
    requires
        forall|i: int| 0 <= i < ls.len() ==> plain_line(#[trigger] ls[i]),
    ensures
        lines(join_lines(ls)) == ls,
    decreases ls.len(),
{
    if ls.len() == 0 {
        assert(lines(join_lines(ls)) =~= ls);
    } else {
        assert(plain_line(ls[0]));
        let rest = ls.drop_first();
        assert forall|i: int| 0 <= i < rest.len() implies plain_line(#[trigger] rest[i]) by {
            assert(rest[i] == ls[i + 1]);
        }
        lemma_lines_join(rest);
        lemma_lines_cons(ls[0], join_lines(rest));
        assert(seq![ls[0]] + rest =~= ls);
    }
}

pub proof fn lemma_join_lines_append(a: Seq<Seq<char>>, b: Seq<Seq<char>>)
    ensures
        join_lines(a + b) == join_lines(a) + join_lines(b),
    decreases a.len(),
{
    if a.len() == 0 {
        assert(a + b =~= b);
        assert(join_lines(a) + join_lines(b) =~= join_lines(b));
    } else {
        lemma_join_lines_append(a.drop_first(), b);
        assert((a + b).drop_first() =~= a.drop_first() + b);
        assert(join_lines(a + b) =~= join_lines(a) + join_lines(b));
    }
}

// ---------------------------------------------------------------------------
// Searching

pub open spec fn occurs_at(s: Seq<char>, pat: Seq<char>, i: int) -> bool {
    0 <= i && i + pat.len() <= s.len() && s.subrange(i, i + pat.len()) == pat
}

/// The first index at which `pat` occurs in `s`, or `s.len()` when it does not occur.
pub open spec fn find(s: Seq<char>, pat: Seq<char>) -> int {
    first_from(s.len() as int, 0, |k: int| occurs_at(s, pat, k))
}

pub open spec fn contains(s: Seq<char>, pat: Seq<char>) -> bool {
    exists|i: int| #[trigger] occurs_at(s, pat, i)
}

pub open spec fn starts_with(s: Seq<char>, pat: Seq<char>) -> bool {
    pat.len() <= s.len() && s.take(pat.len() as int) == pat
}

pub proof fn lemma_find(s: Seq<char>, pat: Seq<char>)
    ensures
        0 <= find(s, pat) <= s.len(),
        find(s, pat) < s.len() ==> occurs_at(s, pat, find(s, pat)),
        forall|k: int| 0 <= k < find(s, pat) ==> !occurs_at(s, pat, k),
        pat.len() > 0 ==> (contains(s, pat) <==> find(s, pat) < s.len()),
{
    let p = |k: int| occurs_at(s, pat, k);
    lemma_first_from(s.len() as int, 0, p);
    assert forall|k: int| 0 <= k < find(s, pat) implies !occurs_at(s, pat, k) by {
        assert(!p(k));
    }
    if contains(s, pat) {
        let i = choose|i: int| #[trigger] occurs_at(s, pat, i);
        if pat.len() == 0 {
            if s.len() > 0 {
                assert(occurs_at(s, pat, 0)) by {
                    assert(s.subrange(0, 0) =~= pat);
                }
                assert(p(0));
            }
        } else {
            assert(i < s.len());
            if find(s, pat) >= s.len() {
                assert(!p(i));
            }
        }
    }
    if find(s, pat) < s.len() {
        assert(occurs_at(s, pat, find(s, pat)));
    }
}

// ---------------------------------------------------------------------------
// Executable counterparts

/// `push` on a `String`.
#[verifier::external_body]
pub(crate) fn push_char(s: &mut String, c: char)
    ensures
        final(s)@ == old(s)@.push(c),
{
    s.push(c);
}

pub fn chars_of(s: &str) -> (v: Vec<char>)
    ensures
        v@ == s@,
{
    let mut v: Vec<char> = Vec::new();
    for c in it: s.chars()
        invariant
            it.seq() == s@,
            v.len() == it.index(),
            forall|i: int| 0 <= i < v.len() ==> v@[i] == it.seq()[i],
    {
        v.push(c);
    }
    assert(v@ =~= s@);
    v
}

/// The characters `v[lo..hi]` as a `String`.
pub fn string_of(v: &Vec<char>, lo: usize, hi: usize) -> (r: String)
    requires
        lo <= hi <= v.len(),
    ensures
        r@ == v@.subrange(lo as int, hi as int),
{
    let mut r = String::new();
    let mut i = lo;
    while i < hi
        invariant
            lo <= i <= hi <= v.len(),
            r@ == v@.subrange(lo as int, i as int),
        decreases hi - i,
    {
        push_char(&mut r, v[i]);
        i = i + 1;
        assert(r@ =~= v@.subrange(lo as int, i as int));
    }
    r
}

pub fn string_from_chars(v: &Vec<char>) -> (r: String)
    ensures
        r@ == v@,
{
    let r = string_of(v, 0, v.len());
    assert(v@.subrange(0, v.len() as int) =~= v@);
    r
}

/// The characters `v[lo..hi]` as a new vector.
pub fn slice_of(v: &Vec<char>, lo: usize, hi: usize) -> (r: Vec<char>)
    requires
        lo <= hi <= v.len(),
    ensures
        r@ == v@.subrange(lo as int, hi as int),
{
    let mut r: Vec<char> = Vec::new();
    let mut i = lo;
    while i < hi
        invariant
            lo <= i <= hi <= v.len(),
            r@ == v@.subrange(lo as int, i as int),
        decreases hi - i,
    {
        r.push(v[i]);
        i = i + 1;
        assert(r@ =~= v@.subrange(lo as int, i as int));
    }
    r
}

/// The bounds of `trim(v)` inside `v`.
pub fn trim_bounds(v: &Vec<char>) -> (r: (usize, usize))
    ensures
        r.0 <= r.1 <= v.len(),
        v@.subrange(r.0 as int, r.1 as int) == trim(v@),
        r.0 as int == lead_ws(v@),
{
    let ghost s = v@;
    let n = v.len();
    let mut a: usize = 0;
    while a < n && char_is_ws(v[a])
        invariant
            s == v@,
            n == v.len(),
            a <= n == s.len(),
            forall|k: int| 0 <= k < a ==> is_ws(s[k]),
        decreases n - a,
    {
        a = a + 1;
    }
    proof {
        lemma_first_from_unique(s.len() as int, 0, |k: int| !is_ws(s[k]), a as int);
    }
    let ghost t = s.skip(a as int);
    let mut b: usize = n;
    while b > a && char_is_ws(v[b - 1])
        invariant
            s == v@,
            n == v.len(),
            a <= b <= n == s.len(),
            t == s.skip(a as int),
            forall|k: int| b <= k < n ==> is_ws(s[k]),
        decreases b - a,
    {
        b = b - 1;
    }
    proof {
        let p = |k: int| !is_ws(t[t.len() - 1 - k]);
        assert forall|k: int| 0 <= k < n - b implies !#[trigger] p(k) by {
            assert(t[t.len() - 1 - k] == s[n - 1 - k]);
        }
        if b > a {
            assert(t[t.len() - 1 - (n - b)] == s[b - 1]);
        }
        lemma_first_from_unique(t.len() as int, 0, p, (n - b) as int);
        assert(s.subrange(a as int, b as int) =~= trim(s));
    }
    (a, b)
}

pub fn trimmed(v: &Vec<char>) -> (r: Vec<char>)
    ensures
        r@ == trim(v@),
{
    let (a, b) = trim_bounds(v);
    slice_of(v, a, b)
}

pub fn trimmed_start(v: &Vec<char>) -> (r: Vec<char>)
    ensures
        r@ == trim_start(v@),
{
    let (a, _b) = trim_bounds(v);
    slice_of(v, a, v.len())
}

pub fn is_blank(v: &Vec<char>) -> (r: bool)
    ensures
        r == (trim(v@).len() == 0),
{
    let (a, b) = trim_bounds(v);
    a == b
}

/// Whether `pat` occurs in `v` at index `i`.
pub fn occurs_at_exec(v: &Vec<char>, pat: &Vec<char>, i: usize) -> (r: bool)
    ensures
        r == occurs_at(v@, pat@, i as int),
{
    if i > v.len() || pat.len() > v.len() - i {
        return false;
    }
    let mut k: usize = 0;
    while k < pat.len()
        invariant
            i + pat.len() <= v.len(),
            k <= pat.len(),
            forall|j: int| 0 <= j < k ==> v@[i + j] == pat@[j],
        decreases pat.len() - k,
    {
        if v[i + k] != pat[k] {
            proof {
                assert(v@.subrange(i as int, i + pat.len())[k as int] != pat@[k as int]);
            }
            return false;
        }
        k = k + 1;
    }
    assert(v@.subrange(i as int, i + pat.len()) =~= pat@);
    true
}

/// The first index at or after `from` at which `pat` occurs.
pub fn find_from_exec(v: &Vec<char>, pat: &Vec<char>, from: usize) -> (r: usize)
    requires
        from <= v.len(),
    ensures
        r as int == first_from(v@.len() as int, from as int, |k: int| occurs_at(v@, pat@, k)),
        from <= r <= v.len(),
{
    let ghost p = |k: int| occurs_at(v@, pat@, k);
    let mut i = from;
    while i < v.len()
        invariant
            p == (|k: int| occurs_at(v@, pat@, k)),
            from <= i <= v.len(),
            forall|k: int| from <= k < i ==> !#[trigger] p(k),
        decreases v.len() - i,
    {
        if occurs_at_exec(v, pat, i) {
            proof {
                lemma_first_from_unique(v@.len() as int, from as int, p, i as int);
            }
            return i;
        }
        assert(!p(i as int));
        i = i + 1;
    }
    proof {
        lemma_first_from_unique(v@.len() as int, from as int, p, i as int);
    }
    i
}

pub fn find_exec(v: &Vec<char>, pat: &Vec<char>) -> (r: usize)
    ensures
        r as int == find(v@, pat@),
{
    find_from_exec(v, pat, 0)
}

pub fn contains_exec(v: &Vec<char>, pat: &Vec<char>) -> (r: bool)
    ensures
        r == contains(v@, pat@),
{
    let i = find_exec(v, pat);
    proof {
        lemma_find(v@, pat@);
    }
    if i < v.len() {
        assert(occurs_at(v@, pat@, i as int));
        true
    } else if pat.len() == 0 {
        // the empty pattern occurs at the end
        assert(occurs_at(v@, pat@, v@.len() as int)) by {
            assert(v@.subrange(v@.len() as int, v@.len() as int) =~= pat@);
        }
        true
    } else {
        false
    }
}

pub fn starts_with_exec(v: &Vec<char>, pat: &Vec<char>) -> (r: bool)
    ensures
        r == starts_with(v@, pat@),
{
    let r = occurs_at_exec(v, pat, 0);
    proof {
        if r {
            assert(v@.take(pat@.len() as int) =~= v@.subrange(0, pat@.len() as int));
        }
        if starts_with(v@, pat@) {
            assert(v@.take(pat@.len() as int) =~= v@.subrange(0, pat@.len() as int));
        }
    }
    r
}

/// The character sequences held by a vector of character vectors.
pub open spec fn views(vs: Seq<Vec<char>>) -> Seq<Seq<char>> {
    vs.map_values(|x: Vec<char>| x@)
}

/// Splits `v` into the lines that `str::lines` yields.
pub fn split_lines(v: &Vec<char>) -> (r: Vec<Vec<char>>)
    ensures
        views(r@) == lines(v@),
{
    let mut out: Vec<Vec<char>> = Vec::new();
    let mut start: usize = 0;
    assert(v@.skip(0) =~= v@);
    assert(views(out@) + lines(v@) =~= lines(v@));
    while start < v.len()
        invariant
            start <= v.len(),
            views(out@) + lines(v@.skip(start as int)) == lines(v@),
        decreases v.len() - start,
    {
        let ghost s = v@.skip(start as int);
        let mut e = start;
        while e < v.len() && v[e] != '\n'
            invariant
                start <= e <= v.len(),
                s == v@.skip(start as int),
                forall|k: int| start <= k < e ==> v@[k] != '\n',
            decreases v.len() - e,
        {
            e = e + 1;
        }
        proof {
            lemma_first_from_unique(s.len() as int, 0, |k: int| s[k] == '\n', (e - start) as int);
        }
        let line_end_idx = if e < v.len() && e > start && v[e - 1] == '\r' {
            e - 1
        } else {
            e
        };
        let line = slice_of(v, start, line_end_idx);
        let ghost old_out = views(out@);
        out.push(line);
        proof {
            assert(views(out@) =~= old_out.push(line@));
            if e < v.len() {
                assert(s.take(e - start) =~= v@.subrange(start as int, e as int));
                assert(line@ =~= strip_cr(s.take(e - start)));
                assert(s.skip(e - start + 1) =~= v@.skip(e + 1));
                assert(lines(s) == seq![line@] + lines(v@.skip(e + 1)));
            } else {
                assert(line@ =~= s);
                assert(lines(s) == seq![line@]);
                assert(v@.skip(v.len() as int) =~= Seq::<char>::empty());
            }
        }
        if e < v.len() {
            start = e + 1;
            assert(old_out + lines(s) =~= views(out@) + lines(v@.skip(start as int)));
        } else {
            start = v.len();
            assert(old_out + lines(s) =~= views(out@) + lines(v@.skip(start as int)));
        }
    }
    assert(v@.skip(start as int) =~= Seq::<char>::empty());
    assert(views(out@) + lines(v@.skip(start as int)) =~= views(out@));
    out
}

// ---------------------------------------------------------------------------
// Decimal numbers

/// The value of a decimal digit.
pub open spec fn digit_of(c: char) -> int {
    c as int - '0' as int
}

pub open spec fn all_digits(t: Seq<char>) -> bool {
    forall|k: int| 0 <= k < t.len() ==> '0' <= #[trigger] t[k] && t[k] <= '9'
}

/// The number that the decimal digits `t` write.
pub open spec fn decimal_value(t: Seq<char>) -> int
    decreases t.len(),
{
    if t.len() == 0 {
        0
    } else {
        decimal_value(t.drop_last()) * 10 + digit_of(t.last())
    }
}

/// The `usize` that `str::parse::<usize>` reads from `t`: an optional `+`,
/// then one or more decimal digits, with a value that fits.
pub open spec fn usize_of(t: Seq<char>) -> Option<usize> {
    let d = if t.len() > 0 && t[0] == '+' {
        t.drop_first()
    } else {
        t
    };
    if d.len() > 0 && all_digits(d) && decimal_value(d) <= usize::MAX {
        Some(decimal_value(d) as usize)
    } else {
        None
    }
}

proof fn lemma_decimal_grows(t: Seq<char>, k: int)
    requires
        0 <= k <= t.len(),
        all_digits(t),
    ensures
        0 <= decimal_value(t.take(k)) <= decimal_value(t),
    decreases t.len(),
{
    if k < t.len() {
        let d = t.drop_last();
        assert(d.take(k) =~= t.take(k));
        lemma_decimal_grows(d, k);
    } else {
        assert(t.take(k) =~= t);
    }
    if t.len() > 0 {
        lemma_decimal_grows(t.drop_last(), t.drop_last().len() as int);
        assert(t.drop_last().take(t.drop_last().len() as int) =~= t.drop_last());
    }
}

/// The number `str::parse::<usize>` reads from `s`.
pub fn parse_usize(s: &str) -> (r: Option<usize>)
    ensures
        r == usize_of(s@),
{
    let v = chars_of(s);
    let start: usize = if v.len() > 0 && v[0] == '+' {
        1
    } else {
        0
    };
    let ghost d = if v@.len() > 0 && v@[0] == '+' {
        v@.drop_first()
    } else {
        v@
    };
    assert(d =~= v@.skip(start as int));
    if start >= v.len() {
        return None;
    }
    let mut value: usize = 0;
    let mut k: usize = start;
    while k < v.len()
        invariant
            start <= k <= v.len(),
            v@ == s@,
            d == v@.skip(start as int),
            all_digits(d.take(k - start)),
            value == decimal_value(d.take(k - start)),
            d.len() > 0,
            d == (if s@.len() > 0 && s@[0] == '+' {
                s@.drop_first()
            } else {
                s@
            }),
        decreases v.len() - k,
    {
        let c = v[k];
        let ghost i = k - start;
        assert(d.take(i + 1).drop_last() =~= d.take(i));
        assert(d.take(i + 1).last() == c);
        if c < '0' || c > '9' {
            assert(!all_digits(d)) by {
                assert(d[i] == c);
            }
            return None;
        }
        let digit = ((c as u32) - ('0' as u32)) as usize;
        if value > (usize::MAX - digit) / 10 {
            proof {
                assert(decimal_value(d.take(i + 1)) > usize::MAX) by (nonlinear_arith)
                    requires
                        decimal_value(d.take(i + 1)) == value * 10 + digit,
                        value > (usize::MAX - digit) / 10,
                        0 <= digit <= 9,
                ;
                if all_digits(d) {
                    lemma_decimal_grows(d, i + 1);
                }
            }
            return None;
        }
        assert(value * 10 + digit <= usize::MAX) by (nonlinear_arith)
            requires
                value <= (usize::MAX - digit) / 10,
                0 <= digit <= 9,
        ;
        value = value * 10 + digit;
        assert forall|m: int| 0 <= m < d.take(i + 1).len() implies '0' <= #[trigger] d.take(
            i + 1,
        )[m] && d.take(i + 1)[m] <= '9' by {
            if m < i {
                assert(d.take(i + 1)[m] == d.take(i)[m]);
            }
        }
        k = k + 1;
    }
    assert(d.take(v.len() - start) =~= d);
    Some(value)
}

/// The `u32` that `str::parse::<u32>` reads from `t`: an optional `+`,
/// then one or more decimal digits, with a value that fits.
pub open spec fn u32_of(t: Seq<char>) -> Option<u32> {
    let d = if t.len() > 0 && t[0] == '+' {
        t.drop_first()
    } else {
        t
    };
    if d.len() > 0 && all_digits(d) && decimal_value(d) <= u32::MAX {
        Some(decimal_value(d) as u32)
    } else {
        None
    }
}

/// The number `str::parse::<u32>` reads from `s`.
pub fn parse_u32(s: &str) -> (r: Option<u32>)
    ensures
        r == u32_of(s@),
{
    let r = parse_usize(s);
    let ghost d = if s@.len() > 0 && s@[0] == '+' {
        s@.drop_first()
    } else {
        s@
    };
    match r {
        Some(n) => {
            proof {
                lemma_decimal_grows(d, 0);
                assert(d.take(0).len() == 0);
            }
            if n <= 0xffff_ffff {
                Some(n as u32)
            } else {
                None
            }
        },
        None => {
            assert(usize::MAX >= 0xffff_ffff);
            None
        },
    }
}

} // verus!
