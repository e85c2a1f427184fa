//! String operations: case mapping and pattern replacement taken from std and the
//! regex crate, and a verified substring search.

use vstd::prelude::*;

verus! {

/// The upper-case mapping of `s`, as std performs it.
pub uninterp spec fn upper_of(s: Seq<char>) -> Seq<char>;

/// The lower-case mapping of `s`, as std performs it.
pub uninterp spec fn lower_of(s: Seq<char>) -> Seq<char>;

/// `text` with the leftmost match of regular expression `pattern` replaced by `rep`,
/// or `None` when `pattern` is not a valid expression.
pub uninterp spec fn regex_replace_first(
    pattern: Seq<char>,
    text: Seq<char>,
    rep: Seq<char>,
) -> Option<Seq<char>>;

/// Relies on `str::to_uppercase`: the result depends on the characters of `s` alone.
#[verifier::external_body]
pub(crate) fn uppercase(s: &str) -> (r: String)
    ensures
        r@ == upper_of(s@),
{
    s.to_uppercase()
}

/// Relies on `str::to_lowercase`: the result depends on the characters of `s` alone.
#[verifier::external_body]
pub(crate) fn lowercase(s: &str) -> (r: String)
    ensures
        r@ == lower_of(s@),
{
    s.to_lowercase()
}

/// `pat` occurs in `s` as a contiguous run of characters.
pub open spec fn occurs_in(s: Seq<char>, pat: Seq<char>) -> bool {
    exists|i: int| 0 <= i && i + pat.len() <= s.len() && #[trigger] s.subrange(i, i + pat.len()) == pat
}

/// Whether `pat` is a substring of `s`.
pub fn contains(s: &str, pat: &str) -> (r: bool)
    ensures
        r == occurs_in(s@, pat@),
{
    let n = s.unicode_len();
    let m = pat.unicode_len();
    if m > n {
        assert(!occurs_in(s@, pat@));
        return false;
    }
    if m == 0 {
        assert(s@.subrange(0, 0int + pat@.len()) =~= pat@);
        return true;
    }
    let mut i: usize = 0;
    while i <= n - m
        invariant
            n == s@.len(),
            m == pat@.len(),
            1 <= m <= n,
            i <= n - m + 1,
            forall|k: int| 0 <= k < i ==> #[trigger] s@.subrange(k, k + m) != pat@,
        decreases n - m + 1 - i,
    {
        let mut j: usize = 0;
        let mut same = true;
        while j < m && same
            invariant
                n == s@.len(),
                m == pat@.len(),
                i + m <= n,
                j <= m,
                same ==> forall|l: int| 0 <= l < j ==> s@[i + l] == pat@[l],
                !same ==> s@.subrange(i as int, i + m) != pat@,
            decreases m - j + if same {
                1int
            } else {
                0int
            },
        {
            if s.get_char(i + j) != pat.get_char(j) {
                assert(s@.subrange(i as int, i + m)[j as int] == s@[i + j]);
                same = false;
            } else {
                j = j + 1;
            }
        }
        if same {
            assert(s@.subrange(i as int, i + pat@.len()) =~= pat@);
            return true;
        }
        i = i + 1;
    }
    assert forall|k: int| 0 <= k && k + pat@.len() <= s@.len() implies #[trigger] s@.subrange(
        k,
        k + pat@.len(),
    ) != pat@ by {
        assert(k < i);
    }
    false
}

/// Relies on `regex::Regex::new` and `regex::Regex::replace`: compiles `pattern` and
/// replaces its leftmost match in `text` with `rep`; `None` when `pattern` does not compile.
#[verifier::external_body]
pub(crate) fn regex_replace(pattern: &str, text: &str, rep: &str) -> (r: Option<String>)
    ensures
        match r {
            Some(s) => regex_replace_first(pattern@, text@, rep@) == Some(s@),
            None => regex_replace_first(pattern@, text@, rep@) is None,
        },
{
    match regex::Regex::new(pattern) {
        Ok(re) => Some(re.replace(text, rep).into_owned()),
        Err(_) => None,
    }
}

} // verus!
