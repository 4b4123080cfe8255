//! Plain-text helpers shared by the status readers and the headless
//! button: white space as `str::trim` sees it, and text comparison.

use vstd::prelude::*;

verus! {

/// Unicode `White_Space` property, the characters that `str::trim` removes.
pub open spec fn is_white_space(c: char) -> bool {
    ||| ('\u{9}' <= c && c <= '\u{d}')
    ||| c == ' '
    ||| c == '\u{85}'
    ||| c == '\u{a0}'
    ||| c == '\u{1680}'
    ||| ('\u{2000}' <= c && c <= '\u{200a}')
    ||| c == '\u{2028}'
    ||| c == '\u{2029}'
    ||| c == '\u{202f}'
    ||| c == '\u{205f}'
    ||| c == '\u{3000}'
}

/// `s` without its leading white space.
pub open spec fn trim_start(s: Seq<char>) -> Seq<char>
    decreases s.len(),
{
    if s.len() > 0 && is_white_space(s[0]) {
        trim_start(s.subrange(1, s.len() as int))
    } else {
        s
    }
}

/// `s` without its trailing white space.
pub open spec fn trim_end(s: Seq<char>) -> Seq<char>
    decreases s.len(),
{
    if s.len() > 0 && is_white_space(s.last()) {
        trim_end(s.drop_last())
    } else {
        s
    }
}

/// `s` without leading and trailing white space.
pub open spec fn trim(s: Seq<char>) -> Seq<char> {
    trim_end(trim_start(s))
}

/// Index of the first character of `s` that is not white space
/// (`s@.len()` when there is none).
fn leading_white_space(s: &str, n: usize) -> (i: usize)
    requires
        n == s@.len(),
    ensures
        i <= n,
        trim_start(s@) == s@.subrange(i as int, n as int),
{
    let mut i: usize = 0;
    assert(s@.subrange(0, n as int) =~= s@);
    while i < n
        invariant
            n == s@.len(),
            i <= n,
            trim_start(s@) == trim_start(s@.subrange(i as int, n as int)),
        ensures
            i <= n,
            trim_start(s@) == s@.subrange(i as int, n as int),
        decreases n - i,
    {
        let c = s.get_char(i);
        if !is_white_space_char(c) {
            assert(s@.subrange(i as int, n as int)[0] == c);
            break;
        }
        assert(s@.subrange(i as int, n as int).subrange(1, n - i) =~= s@.subrange(
            i + 1,
            n as int,
        ));
        i = i + 1;
    }
    i
}

/// Index one past the last character of `s` that is not white space,
/// searching no lower than `lo`.
fn trailing_end(s: &str, lo: usize, n: usize) -> (j: usize)
    requires
        n == s@.len(),
        lo <= n,
    ensures
        lo <= j <= n,
        trim_end(s@.subrange(lo as int, n as int)) == s@.subrange(lo as int, j as int),
{
    let mut j: usize = n;
    while j > lo
        invariant
            n == s@.len(),
            lo <= j <= n,
            trim_end(s@.subrange(lo as int, n as int)) == trim_end(
                s@.subrange(lo as int, j as int),
            ),
        ensures
            lo <= j <= n,
            trim_end(s@.subrange(lo as int, n as int)) == s@.subrange(lo as int, j as int),
        decreases j,
    {
        let c = s.get_char(j - 1);
        if !is_white_space_char(c) {
            assert(s@.subrange(lo as int, j as int).last() == c);
            break;
        }
        assert(s@.subrange(lo as int, j as int).drop_last() =~= s@.subrange(
            lo as int,
            j - 1,
        ));
        j = j - 1;
    }
    j
}

/// Executable form of `is_white_space`.
pub fn is_white_space_char(c: char) -> (b: bool)
    ensures
        b == is_white_space(c),
{
    ('\u{9}' <= c && c <= '\u{d}') || c == ' ' || c == '\u{85}' || c == '\u{a0}' || c
        == '\u{1680}' || ('\u{2000}' <= c && c <= '\u{200a}') || c == '\u{2028}' || c
        == '\u{2029}' || c == '\u{202f}' || c == '\u{205f}' || c == '\u{3000}'
}

/// Bounds `(i, j)` of `s` trimmed of white space: `trim(s@)` is the
/// characters `i..j` of `s`.
pub fn trim_bounds(s: &str) -> (b: (usize, usize))
    ensures
        b.0 <= b.1 <= s@.len(),
        trim(s@) == s@.subrange(b.0 as int, b.1 as int),
{
    let n = s.unicode_len();
    let i = leading_white_space(s, n);
    let j = trailing_end(s, i, n);
    (i, j)
}

/// Whether characters `i..j` of `s` spell `lit`.
pub fn slice_is(s: &str, i: usize, j: usize, lit: &str) -> (b: bool)
    requires
        i <= j <= s@.len(),
    ensures
        b == (s@.subrange(i as int, j as int) == lit@),
{
    let m = lit.unicode_len();
    if j - i != m {
        return false;
    }
    let mut k: usize = 0;
    while k < m
        invariant
            j - i == m,
            m == lit@.len(),
            i <= j <= s@.len(),
            k <= m,
            forall|t: int| 0 <= t < k ==> s@[i + t] == lit@[t],
        decreases m - k,
    {
        if s.get_char(i + k) != lit.get_char(k) {
            assert(s@.subrange(i as int, j as int)[k as int] != lit@[k as int]);
            return false;
        }
        k = k + 1;
    }
    assert(s@.subrange(i as int, j as int) =~= lit@);
    true
}

} // verus!
