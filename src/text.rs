use vstd::prelude::*;

verus! {

/// What `char::is_alphanumeric` answers: the Unicode `Alphabetic` or numeric property.
pub uninterp spec fn is_alnum(c: char) -> bool;

/// What `char::is_whitespace` answers: the Unicode `White_Space` property.
pub uninterp spec fn is_white(c: char) -> bool;

/// Relies on `char::is_alphanumeric`; its answer depends on the character alone.
#[verifier::external_body]
pub(crate) fn char_is_alphanumeric(c: char) -> (r: bool)
    ensures
        r == is_alnum(c),
{
    c.is_alphanumeric()
}

/// Relies on `char::is_whitespace`; its answer depends on the character alone.
#[verifier::external_body]
pub(crate) fn char_is_whitespace(c: char) -> (r: bool)
    ensures
        r == is_white(c),
{
    c.is_whitespace()
}

/// Relies on `String::push`: the character is appended at the end.
#[verifier::external_body]
pub(crate) fn push_char(s: &mut String, c: char)
    ensures
        final(s)@ == old(s)@.push(c),
{
    s.push(c)
}

/// Whether `suffix` is the tail of `s`.
pub(crate) fn str_ends_with(s: &str, suffix: &str) -> (r: bool)
    ensures
        r == has_suffix(s@, suffix@),
{
    let n = s.unicode_len();
    let m = suffix.unicode_len();
    if m > n {
        return false;
    }
    let start = n - m;
    let mut k: usize = 0;
    while k < m
        invariant
            n == s@.len(),
            m == suffix@.len(),
            m <= n,
            start == n - m,
            k <= m,
            forall|j: int| 0 <= j < k ==> s@[start + j] == suffix@[j],
        decreases m - k,
    {
        if s.get_char(start + k) != suffix.get_char(k) {
            proof {
                assert(s@.subrange(start as int, n as int)[k as int] == s@[start + k]);
            }
            return false;
        }
        k = k + 1;
    }
    proof {
        assert(s@.subrange(start as int, n as int) =~= suffix@);
    }
    true
}

/// `suffix` is the tail of `s`.
pub open spec fn has_suffix(s: Seq<char>, suffix: Seq<char>) -> bool {
    suffix.len() <= s.len() && s.subrange(s.len() - suffix.len(), s.len() as int) == suffix
}

/// Index of the first character of `s` that is not white space (`s.len()` if none).
pub open spec fn leading_white_end(s: Seq<char>, i: int) -> int
    decreases s.len() - i,
{
    if 0 <= i < s.len() && is_white(s[i]) {
        leading_white_end(s, i + 1)
    } else {
        i
    }
}

/// Index just past the last character of `s` before `j` that is not white space
/// (`i` if all of `s[i..j]` is white space).
pub open spec fn trailing_white_start(s: Seq<char>, i: int, j: int) -> int
    decreases j - i,
{
    if i < j && is_white(s[j - 1]) {
        trailing_white_start(s, i, j - 1)
    } else {
        j
    }
}

/// `s` without its leading and trailing white space.
pub open spec fn trimmed(s: Seq<char>) -> Seq<char> {
    let i = leading_white_end(s, 0);
    s.subrange(i, trailing_white_start(s, i, s.len() as int))
}

/// Relies on `str::trim`: leading and trailing `White_Space` characters are removed,
/// which is the property that `char::is_whitespace` tests.
#[verifier::external_body]
pub(crate) fn trim(s: &str) -> (r: String)
    ensures
        r@ == trimmed(s@),
{
    s.trim().to_string()
}

} // verus!
