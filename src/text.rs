//! Character-level helpers: Unicode whitespace, trimming, and moving text
//! between `str`, `String` and `Vec<char>`.
use vstd::prelude::*;

verus! {

/// The whitespace characters recognised by `char::is_whitespace`
/// (the Unicode `White_Space` property).
pub open spec fn is_ws(c: char) -> bool {
    ||| ('\u{9}' <= c && c <= '\u{d}')
    ||| c == ' '
    ||| c == '\u{85}'
    ||| c == '\u{a0}'
    ||| c == '\u{1680}'
    ||| ('\u{2000}' <= c && c <= '\u{200a}')
    ||| c == '\u{2028}'
    ||| c == '\u{2029}'
    ||| c == '\u{202f}'
    ||| c == '\u{205f}'
    ||| c == '\u{3000}'
}

/// Whether `c` is Unicode whitespace.
pub fn char_is_ws(c: char) -> (r: bool)
    ensures
        r == is_ws(c),
{
    ('\u{9}' <= c && c <= '\u{d}') || c == ' ' || c == '\u{85}' || c == '\u{a0}' || c == '\u{1680}'
        || ('\u{2000}' <= c && c <= '\u{200a}') || c == '\u{2028}' || c == '\u{2029}'
        || c == '\u{202f}' || c == '\u{205f}' || c == '\u{3000}'
}

/// The first index at or after `i` that does not hold whitespace.
pub open spec fn lead(x: Seq<char>, i: int) -> int
    decreases x.len() - i,
{
    if 0 <= i < x.len() && is_ws(x[i]) {
        lead(x, i + 1)
    } else {
        i
    }
}

/// The end of `x[..j]` once its trailing whitespace is dropped.
pub open spec fn trail(x: Seq<char>, j: int) -> int
    decreases j,
{
    if 0 < j <= x.len() && is_ws(x[j - 1]) {
        trail(x, j - 1)
    } else {
        j
    }
}

/// `x` without leading and trailing whitespace, as `str::trim` gives it.
pub open spec fn trim(x: Seq<char>) -> Seq<char> {
    let a = lead(x, 0);
    let b = trail(x, x.len() as int);
    if a < b {
        x.subrange(a, b)
    } else {
        Seq::empty()
    }
}

proof fn lemma_lead(x: Seq<char>, i: int)
    requires
        0 <= i <= x.len(),
    ensures
        i <= lead(x, i) <= x.len(),
        lead(x, i) < x.len() ==> !is_ws(x[lead(x, i)]),
        forall|k: int| i <= k < lead(x, i) ==> is_ws(#[trigger] x[k]),
    decreases x.len() - i,
{
    if i < x.len() && is_ws(x[i]) {
        lemma_lead(x, i + 1);
    }
}

proof fn lemma_trail(x: Seq<char>, j: int)
    requires
        0 <= j <= x.len(),
    ensures
        0 <= trail(x, j) <= j,
        trail(x, j) > 0 ==> !is_ws(x[trail(x, j) - 1]),
        forall|k: int| trail(x, j) <= k < j ==> is_ws(#[trigger] x[k]),
    decreases j,
{
    if 0 < j && is_ws(x[j - 1]) {
        lemma_trail(x, j - 1);
    }
}

/// A trimmed text neither starts nor ends with whitespace.
pub proof fn lemma_trim_edges(x: Seq<char>)
    ensures
        trim(x).len() > 0 ==> !is_ws(trim(x)[0]) && !is_ws(trim(x).last()),
{
    lemma_lead(x, 0);
    lemma_trail(x, x.len() as int);
}

/// Trimming twice gives what trimming once gives.
pub proof fn lemma_trim_idempotent(x: Seq<char>)
    ensures
        trim(trim(x)) == trim(x),
{
    let t = trim(x);
    lemma_trim_edges(x);
    if t.len() > 0 {
        assert(lead(t, 0) == 0);
        assert(trail(t, t.len() as int) == t.len());
        assert(t.subrange(0, t.len() as int) =~= t);
    } else {
        assert(lead(t, 0) == 0);
    }
}

proof fn lemma_lead_push(x: Seq<char>, c: char, i: int)
    requires
        0 <= i <= x.len(),
        is_ws(c),
    ensures
        lead(x, i) < x.len() ==> lead(x.push(c), i) == lead(x, i),
        lead(x, i) >= x.len() ==> lead(x.push(c), i) >= x.len(),
    decreases x.len() - i,
{
    let y = x.push(c);
    if i < x.len() {
        assert(y[i] == x[i]);
        if is_ws(x[i]) {
            lemma_lead_push(x, c, i + 1);
        }
    } else {
        assert(y[i] == c);
        assert(lead(y, i) == lead(y, i + 1));
    }
}

proof fn lemma_trail_push(x: Seq<char>, c: char, j: int)
    requires
        0 <= j <= x.len(),
    ensures
        trail(x.push(c), j) == trail(x, j),
    decreases j,
{
    if j > 0 {
        assert(x.push(c)[j - 1] == x[j - 1]);
        lemma_trail_push(x, c, j - 1);
    }
}

/// A whitespace character added at the end does not change the trimmed text.
pub proof fn lemma_trim_push_ws(x: Seq<char>, c: char)
    requires
        is_ws(c),
    ensures
        trim(x.push(c)) == trim(x),
{
    let y = x.push(c);
    lemma_lead_push(x, c, 0);
    lemma_trail_push(x, c, x.len() as int);
    assert(trail(y, y.len() as int) == trail(y, x.len() as int));
    lemma_lead(x, 0);
    lemma_trail(x, x.len() as int);
    if lead(x, 0) < trail(x, x.len() as int) {
        assert(y.subrange(lead(x, 0), trail(x, x.len() as int)) =~= x.subrange(
            lead(x, 0),
            trail(x, x.len() as int),
        ));
    }
}

/// `x` with leading and trailing Unicode whitespace removed.
pub fn trim_chars(x: &Vec<char>) -> (r: Vec<char>)
    ensures
        r@ == trim(x@),
{
    let n = x.len();
    let mut i: usize = 0;
    while i < n && char_is_ws(x[i])
        invariant
            i <= n == x@.len(),
            lead(x@, 0) == lead(x@, i as int),
        decreases n - i,
    {
        i = i + 1;
    }
    let mut j: usize = n;
    while j > 0 && char_is_ws(x[j - 1])
        invariant
            j <= n == x@.len(),
            i <= n,
            trail(x@, n as int) == trail(x@, j as int),
            i < n ==> !is_ws(x@[i as int]),
            i < n ==> j > i,
        decreases j,
    {
        j = j - 1;
    }
    let mut r: Vec<char> = Vec::new();
    if i < j {
        let mut k: usize = i;
        while k < j
            invariant
                i <= k <= j <= n == x@.len(),
                r@ == x@.subrange(i as int, k as int),
            decreases j - k,
        {
            r.push(x[k]);
            k = k + 1;
            assert(r@ =~= x@.subrange(i as int, k as int));
        }
    } else {
        assert(i == n || j == 0);
        proof {
            lemma_trail(x@, n as int);
        }
    }
    r
}

/// The characters of `s`, in order.
pub fn chars_of(s: &str) -> (r: Vec<char>)
    ensures
        r@ == s@,
{
    let mut r: Vec<char> = Vec::new();
    for c in it: s.chars()
        invariant
            r@ == it.seq().take(it.index() as int),
    {
        r.push(c);
        assert(r@ =~= it.seq().take(it.index() as int + 1));
    }
    r
}

/// Appends the characters of `s` to `out`.
pub fn push_str(out: &mut Vec<char>, s: &str)
    ensures
        final(out)@ == old(out)@ + s@,
{
    let n = s.unicode_len();
    let mut i: usize = 0;
    while i < n
        invariant
            i <= n == s@.len(),
            out@ == old(out)@ + s@.subrange(0, i as int),
        decreases n - i,
    {
        out.push(s.get_char(i));
        i = i + 1;
        assert(out@ =~= old(out)@ + s@.subrange(0, i as int));
    }
    assert(s@.subrange(0, n as int) =~= s@);
}

/// Appends `v` to `out`.
pub fn push_all(out: &mut Vec<char>, v: &Vec<char>)
    ensures
        final(out)@ == old(out)@ + v@,
{
    let mut i: usize = 0;
    while i < v.len()
        invariant
            i <= v@.len(),
            out@ == old(out)@ + v@.subrange(0, i as int),
        decreases v.len() - i,
    {
        out.push(v[i]);
        i = i + 1;
        assert(out@ =~= old(out)@ + v@.subrange(0, i as int));
    }
    assert(v@.subrange(0, v@.len() as int) =~= v@);
}

/// Relies on `String::from_iter` over chars: the string holds the chars in order.
#[verifier::external_body]
pub(crate) fn string_of(v: Vec<char>) -> (r: String)
    ensures
        r@ == v@,
{
    String::from_iter(v)
}

} // verus!
