//! Character-level helpers on strings: case folding, equality, prefixes and
//! substring search.
use vstd::prelude::*;
use vstd::string::*;

verus! {

/// The lowercase form of a string, as Rust's `str::to_lowercase` gives it.
pub uninterp spec fn lower_of(s: Seq<char>) -> Seq<char>;

/// The code of `c` after ASCII case folding: `A`..`Z` become `a`..`z`.
pub open spec fn ascii_folded_code(c: char) -> u32 {
    if 'A' <= c && c <= 'Z' {
        (c as u32 + 32) as u32
    } else {
        c as u32
    }
}

/// Every character of `s` is ASCII.
pub open spec fn all_ascii(s: Seq<char>) -> bool {
    forall|i: int| 0 <= i < s.len() ==> (#[trigger] s[i] as u32) < 128
}

/// Whether `s` equals `t` once ASCII letters of `s` are folded to lowercase.
pub open spec fn folds_to(s: Seq<char>, t: Seq<char>) -> bool {
    &&& all_ascii(s)
    &&& s.len() == t.len()
    &&& forall|i: int| 0 <= i < s.len() ==> ascii_folded_code(#[trigger] s[i]) == t[i] as u32
}

/// Relies on `str::to_lowercase`: its result depends on the characters
/// alone, and on ASCII text it folds `A`..`Z` to `a`..`z` and keeps every
/// other character.
#[verifier::external_body]
pub(crate) fn lowercase(s: &str) -> (r: String)
    ensures
        r@ == lower_of(s@),
        all_ascii(s@) ==> r@.len() == s@.len() && forall|i: int|
            0 <= i < s@.len() ==> #[trigger] r@[i] as u32 == ascii_folded_code(s@[i]),
{
    s.to_lowercase()
}

/// Whether two strings hold the same characters.
pub fn str_eq(a: &str, b: &str) -> (r: bool)
    ensures
        r == (a@ == b@),
{
    let n = a.unicode_len();
    if n != b.unicode_len() {
        return false;
    }
    let mut i: usize = 0;
    while i < n
        invariant
            n == a@.len(),
            n == b@.len(),
            i <= n,
            a@.subrange(0, i as int) == b@.subrange(0, i as int),
        decreases n - i,
    {
        if a.get_char(i) != b.get_char(i) {
            return false;
        }
        assert(a@.subrange(0, i + 1) =~= a@.subrange(0, i as int).push(a@[i as int]));
        assert(b@.subrange(0, i + 1) =~= b@.subrange(0, i as int).push(b@[i as int]));
        i = i + 1;
    }
    assert(a@ =~= a@.subrange(0, n as int));
    assert(b@ =~= b@.subrange(0, n as int));
    true
}

/// Whether `s` begins with `p`.
pub open spec fn has_prefix(s: Seq<char>, p: Seq<char>) -> bool {
    p.len() <= s.len() && s.subrange(0, p.len() as int) == p
}

/// Whether `n` occurs in `s` as a run of consecutive characters.
pub open spec fn occurs_in(n: Seq<char>, s: Seq<char>) -> bool {
    exists|i: int| 0 <= i <= s.len() - n.len() && #[trigger] s.subrange(i, i + n.len()) == n
}

/// Whether `s` begins with `p`.
pub fn starts_with(s: &str, p: &str) -> (r: bool)
    ensures
        r == has_prefix(s@, p@),
{
    let n = p.unicode_len();
    if n > s.unicode_len() {
        return false;
    }
    str_eq(s.substring_char(0, n), p)
}

/// Whether `n` occurs in `s` at position `i`.
fn occurs_at(s: &str, n: &str, i: usize) -> (r: bool)
    requires
        i + n@.len() <= s@.len(),
        s@.len() <= usize::MAX,
    ensures
        r == (s@.subrange(i as int, i + n@.len()) == n@),
{
    let len = n.unicode_len();
    let mut j: usize = 0;
    while j < len
        invariant
            len == n@.len(),
            i + len <= s@.len(),
            s@.len() <= usize::MAX,
            j <= len,
            s@.subrange(i as int, i + j) == n@.subrange(0, j as int),
        decreases len - j,
    {
        if s.get_char(i + j) != n.get_char(j) {
            assert(s@.subrange(i as int, i + len)[j as int] != n@[j as int]);
            return false;
        }
        assert(s@.subrange(i as int, i + j + 1) =~= s@.subrange(i as int, i + j).push(
            s@[i + j],
        ));
        assert(n@.subrange(0, j + 1) =~= n@.subrange(0, j as int).push(n@[j as int]));
        j = j + 1;
    }
    assert(n@ =~= n@.subrange(0, len as int));
    true
}

/// Whether `n` occurs in `s`.
pub fn contains(s: &str, n: &str) -> (r: bool)
    ensures
        r == occurs_in(n@, s@),
{
    let sl = s.unicode_len();
    let nl = n.unicode_len();
    if nl > sl {
        return false;
    }
    if nl == 0 {
        assert(s@.subrange(0, 0 + n@.len() as int) =~= n@);
        return true;
    }
    let mut i: usize = 0;
    while i <= sl - nl
        invariant
            sl == s@.len(),
            nl == n@.len(),
            1 <= nl <= sl,
            i <= sl - nl + 1,
            forall|k: int| 0 <= k < i ==> #[trigger] s@.subrange(k, k + nl) != n@,
        decreases sl - nl + 1 - i,
    {
        if occurs_at(s, n, i) {
            return true;
        }
        i = i + 1;
    }
    false
}

} // verus!
