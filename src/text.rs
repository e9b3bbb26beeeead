//! Character-level helpers: whitespace trimming and substring search,
//! stated over the character sequence of a string.
use vstd::prelude::*;

verus! {

/// Unicode `White_Space`, the set that `char::is_whitespace` tests.
pub open spec fn is_ws(c: char) -> bool {
    let u = c as u32;
    (0x09 <= u && u <= 0x0D) || u == 0x20 || u == 0x85 || u == 0xA0 || u == 0x1680 || (0x2000
        <= u && u <= 0x200A) || u == 0x2028 || u == 0x2029 || u == 0x202F || u == 0x205F || u
        == 0x3000
}

pub fn is_ws_char(c: char) -> (r: bool)
    ensures
        r == is_ws(c),
{
    let u = c as u32;
    (0x09 <= u && u <= 0x0D) || u == 0x20 || u == 0x85 || u == 0xA0 || u == 0x1680 || (0x2000
        <= u && u <= 0x200A) || u == 0x2028 || u == 0x2029 || u == 0x202F || u == 0x205F || u
        == 0x3000
}

/// The sequence without its leading whitespace.
pub open spec fn trim_front(s: Seq<char>) -> Seq<char>
    decreases s.len(),
{
    if s.len() > 0 && is_ws(s[0]) {
        trim_front(s.drop_first())
    } else {
        s
    }
}

/// The sequence without its trailing whitespace.
pub open spec fn trim_back(s: Seq<char>) -> Seq<char>
    decreases s.len(),
{
    if s.len() > 0 && is_ws(s.last()) {
        trim_back(s.drop_last())
    } else {
        s
    }
}

/// The sequence without leading and trailing whitespace, as `str::trim` leaves it.
pub open spec fn trim(s: Seq<char>) -> Seq<char> {
    trim_back(trim_front(s))
}

/// `pat` stands in `s` starting at index `i`.
pub open spec fn occurs_at(s: Seq<char>, pat: Seq<char>, i: int) -> bool {
    0 <= i && i + pat.len() <= s.len() && s.subrange(i, i + pat.len()) == pat
}

/// `pat` starts nowhere in `s` at an index in `[lo, hi)`.
pub open spec fn absent_in(s: Seq<char>, pat: Seq<char>, lo: int, hi: int) -> bool {
    forall|k: int| lo <= k < hi ==> !#[trigger] occurs_at(s, pat, k)
}

/// `pat` occurs nowhere in `s`.
pub open spec fn absent(s: Seq<char>, pat: Seq<char>) -> bool {
    absent_in(s, pat, 0, s.len() as int)
}

proof fn lemma_trim_front_skip(s: Seq<char>, i: int)
    requires
        0 <= i < s.len(),
        is_ws(s[i]),
    ensures
        trim_front(s.subrange(i, s.len() as int)) == trim_front(s.subrange(i + 1, s.len() as int)),
{
    assert(s.subrange(i, s.len() as int).drop_first() =~= s.subrange(i + 1, s.len() as int));
}

proof fn lemma_trim_back_skip(s: Seq<char>, j: int)
    requires
        0 < j <= s.len(),
        is_ws(s[j - 1]),
    ensures
        trim_back(s.subrange(0, j)) == trim_back(s.subrange(0, j - 1)),
{
    assert(s.subrange(0, j).drop_last() =~= s.subrange(0, j - 1));
}

pub proof fn lemma_trim_front_shape(s: Seq<char>)
    ensures
        trim_front(s).len() <= s.len(),
        trim_front(s) == s.subrange(s.len() - trim_front(s).len(), s.len() as int),
        trim_front(s).len() == 0 || !is_ws(trim_front(s)[0]),
    decreases s.len(),
{
    if s.len() > 0 && is_ws(s[0]) {
        lemma_trim_front_shape(s.drop_first());
        let t = trim_front(s.drop_first());
        assert(s.drop_first().subrange(s.len() - 1 - t.len(), s.len() - 1) =~= s.subrange(
            s.len() - t.len(),
            s.len() as int,
        ));
    } else {
        assert(s.subrange(0, s.len() as int) =~= s);
    }
}

pub proof fn lemma_trim_back_shape(s: Seq<char>)
    ensures
        trim_back(s).len() <= s.len(),
        trim_back(s) == s.subrange(0, trim_back(s).len() as int),
        trim_back(s).len() == 0 || !is_ws(trim_back(s).last()),
    decreases s.len(),
{
    if s.len() > 0 && is_ws(s.last()) {
        lemma_trim_back_shape(s.drop_last());
        let t = trim_back(s.drop_last());
        assert(s.drop_last().subrange(0, t.len() as int) =~= s.subrange(0, t.len() as int));
    } else {
        assert(s.subrange(0, s.len() as int) =~= s);
    }
}

/// A sequence that neither starts nor ends with whitespace is its own trim.
pub proof fn lemma_trim_fixed(s: Seq<char>)
    requires
        s.len() == 0 || (!is_ws(s[0]) && !is_ws(s.last())),
    ensures
        trim(s) == s,
{
}

/// Trimming twice is trimming once.
pub proof fn lemma_trim_idempotent(s: Seq<char>)
    ensures
        trim(trim(s)) == trim(s),
{
    let f = trim_front(s);
    lemma_trim_front_shape(s);
    lemma_trim_back_shape(f);
    let t = trim_back(f);
    if t.len() > 0 {
        assert(t[0] == f[0]);
    }
    lemma_trim_fixed(t);
}

/// A sequence that trims to itself neither starts nor ends with whitespace.
pub proof fn lemma_trimmed_shape(s: Seq<char>)
    requires
        trim(s) == s,
    ensures
        s.len() == 0 || (!is_ws(s[0]) && !is_ws(s.last())),
{
    lemma_trim_front_shape(s);
    lemma_trim_back_shape(trim_front(s));
    if s.len() > 0 {
        assert(s[0] == trim_front(s)[0]);
    }
}

pub open spec fn all_ws(w: Seq<char>) -> bool {
    forall|i: int| 0 <= i < w.len() ==> is_ws(#[trigger] w[i])
}

proof fn lemma_trim_front_ws_prefix(w: Seq<char>, y: Seq<char>)
    requires
        all_ws(w),
    ensures
        trim_front(w + y) == trim_front(y),
    decreases w.len(),
{
    if w.len() > 0 {
        assert((w + y)[0] == w[0]);
        assert((w + y).drop_first() =~= w.drop_first() + y);
        lemma_trim_front_ws_prefix(w.drop_first(), y);
    } else {
        assert(w + y =~= y);
    }
}

proof fn lemma_trim_back_ws_suffix(y: Seq<char>, w: Seq<char>)
    requires
        all_ws(w),
    ensures
        trim_back(y + w) == trim_back(y),
    decreases w.len(),
{
    if w.len() > 0 {
        assert((y + w).last() == w.last());
        assert((y + w).drop_last() =~= y + w.drop_last());
        lemma_trim_back_ws_suffix(y, w.drop_last());
    } else {
        assert(y + w =~= y);
    }
}

/// Whitespace around a trimmed text is what trimming removes.
pub proof fn lemma_trim_wrapped(w1: Seq<char>, x: Seq<char>, w2: Seq<char>)
    requires
        all_ws(w1),
        all_ws(w2),
        trim(x) == x,
    ensures
        trim(w1 + x + w2) == x,
{
    lemma_trimmed_shape(x);
    assert(w1 + x + w2 =~= w1 + (x + w2));
    lemma_trim_front_ws_prefix(w1, x + w2);
    if x.len() == 0 {
        assert(x + w2 =~= w2 + x);
        lemma_trim_front_ws_prefix(w2, x);
    } else {
        assert((x + w2)[0] == x[0]);
    }
    lemma_trim_back_ws_suffix(x, w2);
}

/// A non-whitespace character survives trimming at the back.
pub proof fn lemma_trim_back_keeps(s: Seq<char>, i: int)
    requires
        0 <= i < s.len(),
        !is_ws(s[i]),
    ensures
        i < trim_back(s).len(),
        trim_back(s) == s.subrange(0, trim_back(s).len() as int),
    decreases s.len(),
{
    lemma_trim_back_shape(s);
    if is_ws(s.last()) {
        lemma_trim_back_keeps(s.drop_last(), i);
    }
}

/// `pat` cannot start at `k` where its window covers a character it lacks.
pub proof fn lemma_window_blocked(s: Seq<char>, pat: Seq<char>, k: int, t: int)
    requires
        k <= t < k + pat.len(),
        forall|j: int| 0 <= j < pat.len() ==> pat[j] != s[t],
    ensures
        !occurs_at(s, pat, k),
{
    if occurs_at(s, pat, k) {
        assert(s.subrange(k, k + pat.len())[t - k] == s[t]);
    }
}

/// An occurrence inside the middle part of `a + x + b` is one in `x`.
pub proof fn lemma_window_inside(a: Seq<char>, x: Seq<char>, b: Seq<char>, pat: Seq<char>, k: int)
    requires
        a.len() <= k,
        k + pat.len() <= a.len() + x.len(),
        occurs_at(a + x + b, pat, k),
    ensures
        occurs_at(x, pat, k - a.len()),
{
    let s = a + x + b;
    assert(s.subrange(k, k + pat.len()) =~= x.subrange(k - a.len(), k - a.len() + pat.len()));
}

/// The characters of a string, in order.
pub fn chars_of(s: &str) -> (r: Vec<char>)
    ensures
        r@ == s@,
{
    let mut r: Vec<char> = Vec::new();
    for c in it: s.chars()
        invariant
            r@ == it.seq().take(it.index() as int),
    {
        r.push(c);
    }
    r
}

/// Bounds `(lo, hi)` of the trimmed part of `s`.
pub fn trim_bounds(s: &Vec<char>) -> (r: (usize, usize))
    ensures
        r.0 <= r.1 <= s@.len(),
        s@.subrange(r.0 as int, r.1 as int) == trim(s@),
{
    let n = s.len();
    let mut lo: usize = 0;
    assert(s@.subrange(0, n as int) =~= s@);
    while lo < n && is_ws_char(s[lo])
        invariant
            lo <= n == s@.len(),
            trim_front(s@) == trim_front(s@.subrange(lo as int, n as int)),
        decreases n - lo,
    {
        proof {
            lemma_trim_front_skip(s@, lo as int);
        }
        lo = lo + 1;
    }
    let ghost front = s@.subrange(lo as int, n as int);
    assert(trim_front(s@) == front) by {
        assert(s@.subrange(lo as int, n as int) == front);
    }
    let mut hi: usize = n;
    assert(front.subrange(0, (n - lo) as int) =~= front);
    while hi > lo && is_ws_char(s[hi - 1])
        invariant
            lo <= hi <= n == s@.len(),
            front == s@.subrange(lo as int, n as int),
            trim_back(front) == trim_back(front.subrange(0, hi - lo)),
        decreases hi,
    {
        proof {
            lemma_trim_back_skip(front, (hi - lo) as int);
        }
        hi = hi - 1;
    }
    assert(front.subrange(0, hi - lo) =~= s@.subrange(lo as int, hi as int));
    (lo, hi)
}

/// The first index at or after `from` where `pat` occurs in `s`, if any.
pub fn find_from(s: &Vec<char>, pat: &Vec<char>, from: usize) -> (r: Option<usize>)
    requires
        from <= s@.len(),
    ensures
        match r {
            Some(i) => from <= i && occurs_at(s@, pat@, i as int) && absent_in(
                s@,
                pat@,
                from as int,
                i as int,
            ),
            None => absent_in(s@, pat@, from as int, s@.len() as int),
        },
{
    let n = s.len();
    let m = pat.len();
    let mut i: usize = from;
    while i < n
        invariant
            from <= i <= n == s@.len(),
            m == pat@.len(),
            absent_in(s@, pat@, from as int, i as int),
        decreases n - i,
    {
        if m <= n - i {
            let mut k: usize = 0;
            while k < m && s[i + k] == pat[k]
                invariant
                    k <= m,
                    i + m <= n,
                    m == pat@.len(),
                    n == s@.len(),
                    forall|t: int| 0 <= t < k ==> s@[i + t] == pat@[t],
                decreases m - k,
            {
                k = k + 1;
            }
            if k == m {
                assert(s@.subrange(i as int, i + m) =~= pat@);
                return Some(i);
            }
            assert(!occurs_at(s@, pat@, i as int)) by {
                if occurs_at(s@, pat@, i as int) {
                    assert(s@.subrange(i as int, i + m)[k as int] == s@[i + k]);
                }
            }
        }
        i = i + 1;
    }
    None
}

} // verus!
