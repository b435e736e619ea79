//! Small string helpers with exact contracts over character sequences.
use vstd::prelude::*;
use vstd::string::*;

verus! {

/// An owned copy of a string slice.
pub fn owned(s: &str) -> (r: String)
    ensures
        r@ == s@,
{
    <String as StringExecFns>::from_str(s)
}

/// The concatenation of two strings.
pub fn join2(a: &str, b: &str) -> (r: String)
    ensures
        r@ == a@ + b@,
{
    let r = owned(a);
    r.concat(b)
}

/// The concatenation of three strings.
pub fn join3(a: &str, b: &str, c: &str) -> (r: String)
    ensures
        r@ == a@ + b@ + c@,
{
    let r = owned(a);
    let r = r.concat(b);
    r.concat(c)
}

/// Whether `s` ends with `suffix`.
pub open spec fn has_suffix(s: Seq<char>, suffix: Seq<char>) -> bool {
    suffix.len() <= s.len() && s.subrange(s.len() - suffix.len(), s.len() as int) == suffix
}

/// Tests whether `s` ends with `suffix`, character by character.
pub fn ends_with(s: &str, suffix: &str) -> (r: bool)
    ensures
        r == has_suffix(s@, suffix@),
{
    let n = s.unicode_len();
    let m = suffix.unicode_len();
    if m > n {
        return false;
    }
    let off = n - m;
    let mut i: usize = 0;
    while i < m
        invariant
            n == s@.len(),
            m == suffix@.len(),
            off == n - m,
            i <= m,
            forall|j: int| 0 <= j < i ==> s@[off + j] == suffix@[j],
        decreases m - i,
    {
        if s.get_char(off + i) != suffix.get_char(i) {
            assert(s@.subrange(off as int, n as int)[i as int] != suffix@[i as int]);
            return false;
        }
        i = i + 1;
    }
    assert(s@.subrange(off as int, n as int) =~= suffix@);
    true
}

} // verus!
