//! Verified text utilities: case-insensitive matching, substring search,
//! whitespace trimming, and decimal rendering.
//!
//! Case folding and the Unicode whitespace classification are the only
//! pieces taken from outside; each is a named function of its argument
//! alone, and everything built on top is proved against the name.

use vstd::prelude::*;
use vstd::string::StrSliceExecFns;
use vstd::string::StringExecFns;

verus! {

/// What `str::to_lowercase` returns for the given characters.
pub uninterp spec fn lower_of(s: Seq<char>) -> Seq<char>;

/// Relies on str::to_lowercase: the result depends on the characters alone,
/// and an empty string stays empty.
#[verifier::external_body]
pub fn to_lowercase(s: &str) -> (r: String)
    ensures
        r@ == lower_of(s@),
        s@.len() == 0 ==> r@.len() == 0,
{
    s.to_lowercase()
}

/// Whether `char::is_whitespace` holds of the character.
pub uninterp spec fn is_space_char(c: char) -> bool;

/// Relies on char::is_whitespace: the Unicode `White_Space` classification
/// of the single character.
#[verifier::external_body]
pub fn char_is_whitespace(c: char) -> (r: bool)
    ensures
        r == is_space_char(c),
{
    c.is_whitespace()
}

/// Whether the two strings agree once case is folded away.
pub open spec fn eq_ignore_case_spec(a: Seq<char>, b: Seq<char>) -> bool {
    lower_of(a) == lower_of(b)
}

/// Case-insensitive string equality.
pub fn eq_ignore_case(a: &str, b: &str) -> (r: bool)
    ensures
        r == eq_ignore_case_spec(a@, b@),
{
    let la = to_lowercase(a);
    let lb = to_lowercase(b);
    la == lb
}

/// Whether `needle` occurs in `haystack` starting at position `i`.
pub open spec fn occurs_at(haystack: Seq<char>, needle: Seq<char>, i: int) -> bool {
    0 <= i && i + needle.len() <= haystack.len() && haystack.subrange(i, i + needle.len())
        == needle
}

/// Whether `needle` occurs somewhere in `haystack`.
pub open spec fn contains_seq(haystack: Seq<char>, needle: Seq<char>) -> bool {
    exists|i: int| occurs_at(haystack, needle, i)
}

/// Whether `needle` occurs in `haystack` as a contiguous run of characters.
pub fn contains_str(haystack: &str, needle: &str) -> (r: bool)
    ensures
        r == contains_seq(haystack@, needle@),
{
    let h_len = haystack.unicode_len();
    let n_len = needle.unicode_len();
    if n_len == 0 {
        proof {
            assert(haystack@.subrange(0, 0) =~= needle@);
            assert(occurs_at(haystack@, needle@, 0));
        }
        return true;
    }
    if n_len > h_len {
        proof {
            assert(forall|i: int| !occurs_at(haystack@, needle@, i));
        }
        return false;
    }
    let mut i: usize = 0;
    while i <= h_len - n_len
        invariant
            1 <= n_len <= h_len,
            h_len == haystack@.len(),
            n_len == needle@.len(),
            i <= h_len - n_len + 1,
            forall|k: int| 0 <= k < i ==> !occurs_at(haystack@, needle@, k),
        decreases h_len - n_len - i + 1,
    {
        let mut j: usize = 0;
        let mut matched = true;
        while j < n_len
            invariant
                n_len <= h_len,
                h_len == haystack@.len(),
                n_len == needle@.len(),
                i + n_len <= h_len,
                j <= n_len,
                matched ==> forall|t: int| 0 <= t < j ==> haystack@[i + t] == needle@[t],
                !matched ==> !occurs_at(haystack@, needle@, i as int),
            decreases n_len - j,
        {
            if matched {
                let hc = haystack.get_char(i + j);
                let nc = needle.get_char(j);
                if hc != nc {
                    proof {
                        if occurs_at(haystack@, needle@, i as int) {
                            assert(haystack@.subrange(i as int, i + needle@.len())[j as int]
                                == haystack@[i + j]);
                        }
                    }
                    matched = false;
                }
            }
            j += 1;
        }
        if matched {
            proof {
                assert(haystack@.subrange(i as int, i + needle@.len()) =~= needle@);
                assert(occurs_at(haystack@, needle@, i as int));
            }
            return true;
        }
        i += 1;
    }
    proof {
        assert forall|k: int| !occurs_at(haystack@, needle@, k) by {
            if occurs_at(haystack@, needle@, k) {
                assert(0 <= k <= h_len - n_len);
            }
        }
    }
    false
}

/// Whether `prefix` starts the string `s`.
pub fn starts_with_str(s: &str, prefix: &str) -> (r: bool)
    ensures
        r == prefix@.is_prefix_of(s@),
{
    let s_len = s.unicode_len();
    let p_len = prefix.unicode_len();
    if p_len > s_len {
        return false;
    }
    let mut j: usize = 0;
    while j < p_len
        invariant
            p_len <= s_len,
            s_len == s@.len(),
            p_len == prefix@.len(),
            j <= p_len,
            forall|t: int| 0 <= t < j ==> s@[t] == prefix@[t],
        decreases p_len - j,
    {
        if s.get_char(j) != prefix.get_char(j) {
            proof {
                if prefix@.is_prefix_of(s@) {
                    assert(s@.subrange(0, prefix@.len() as int)[j as int] == s@[j as int]);
                }
            }
            return false;
        }
        j += 1;
    }
    proof {
        assert(prefix@ =~= s@.subrange(0, prefix@.len() as int));
    }
    true
}

/// Whether the character occurs in the string.
pub fn contains_char(s: &str, c: char) -> (r: bool)
    ensures
        r == s@.contains(c),
{
    let len = s.unicode_len();
    let mut i: usize = 0;
    while i < len
        invariant
            len == s@.len(),
            i <= len,
            forall|k: int| 0 <= k < i ==> s@[k] != c,
        decreases len - i,
    {
        if s.get_char(i) == c {
            return true;
        }
        i += 1;
    }
    false
}

/// How many characters of leading whitespace the string carries.
pub open spec fn leading_spaces(s: Seq<char>) -> int
    decreases s.len(),
{
    if s.len() > 0 && is_space_char(s[0]) {
        1 + leading_spaces(s.drop_first())
    } else {
        0
    }
}

/// How many characters of trailing whitespace the string carries.
pub open spec fn trailing_spaces(s: Seq<char>) -> int
    decreases s.len(),
{
    if s.len() > 0 && is_space_char(s.last()) {
        1 + trailing_spaces(s.drop_last())
    } else {
        0
    }
}

/// The string with leading and trailing whitespace removed.
pub open spec fn trim_spec(s: Seq<char>) -> Seq<char> {
    if leading_spaces(s) == s.len() {
        Seq::empty()
    } else {
        s.subrange(leading_spaces(s), s.len() - trailing_spaces(s))
    }
}

/// `leading_spaces` counts an initial all-whitespace run: it is in bounds,
/// everything before it is whitespace, and the character at it (if any) is
/// not.
pub proof fn lemma_leading_spaces(s: Seq<char>)
    ensures
        0 <= leading_spaces(s) <= s.len(),
        forall|k: int| 0 <= k < leading_spaces(s) ==> is_space_char(s[k]),
        leading_spaces(s) < s.len() ==> !is_space_char(s[leading_spaces(s)]),
    decreases s.len(),
{
    if s.len() > 0 && is_space_char(s[0]) {
        lemma_leading_spaces(s.drop_first());
        assert forall|k: int| 0 <= k < leading_spaces(s) implies is_space_char(s[k]) by {
            if k > 0 {
                assert(s.drop_first()[k - 1] == s[k]);
            }
        }
        if leading_spaces(s) < s.len() {
            assert(s.drop_first()[leading_spaces(s) - 1] == s[leading_spaces(s)]);
        }
    }
}

/// `trailing_spaces` counts a final all-whitespace run, symmetrically.
pub proof fn lemma_trailing_spaces(s: Seq<char>)
    ensures
        0 <= trailing_spaces(s) <= s.len(),
        forall|k: int| s.len() - trailing_spaces(s) <= k < s.len() ==> is_space_char(s[k]),
        trailing_spaces(s) < s.len() ==> !is_space_char(s[s.len() - trailing_spaces(s) - 1]),
    decreases s.len(),
{
    if s.len() > 0 && is_space_char(s.last()) {
        lemma_trailing_spaces(s.drop_last());
        assert forall|k: int| s.len() - trailing_spaces(s) <= k < s.len() implies is_space_char(
            s[k],
        ) by {
            if k < s.len() - 1 {
                assert(s.drop_last()[k] == s[k]);
            }
        }
        if trailing_spaces(s) < s.len() {
            assert(s.drop_last()[s.len() - trailing_spaces(s) - 1] == s[s.len() - trailing_spaces(
                s,
            ) - 1]);
        }
    }
}

/// An initial whitespace run of length `a`, capped by a non-space character,
/// pins `leading_spaces` to exactly `a`.
proof fn lemma_leading_spaces_from_scan(s: Seq<char>, a: int)
    requires
        0 <= a <= s.len(),
        forall|k: int| 0 <= k < a ==> is_space_char(s[k]),
        a < s.len() ==> !is_space_char(s[a]),
    ensures
        leading_spaces(s) == a,
    decreases s.len(),
{
    if s.len() > 0 && is_space_char(s[0]) {
        assert(a > 0);
        assert forall|k: int| 0 <= k < a - 1 implies is_space_char(s.drop_first()[k]) by {
            assert(s.drop_first()[k] == s[k + 1]);
        }
        if a - 1 < s.drop_first().len() {
            assert(s.drop_first()[a - 1] == s[a]);
        }
        lemma_leading_spaces_from_scan(s.drop_first(), a - 1);
    } else {
        assert(a == 0);
    }
}

/// A final whitespace run of length `s.len() - b`, preceded by a non-space
/// character, pins `trailing_spaces` to exactly `s.len() - b`.
proof fn lemma_trailing_spaces_from_scan(s: Seq<char>, b: int)
    requires
        0 <= b <= s.len(),
        forall|k: int| b <= k < s.len() ==> is_space_char(s[k]),
        b > 0 ==> !is_space_char(s[b - 1]),
    ensures
        trailing_spaces(s) == s.len() - b,
    decreases s.len(),
{
    if s.len() > 0 && is_space_char(s.last()) {
        assert(b < s.len());
        assert forall|k: int| b <= k < s.drop_last().len() implies is_space_char(
            s.drop_last()[k],
        ) by {
            assert(s.drop_last()[k] == s[k]);
        }
        if b > 0 {
            assert(s.drop_last()[b - 1] == s[b - 1]);
        }
        lemma_trailing_spaces_from_scan(s.drop_last(), b);
    } else {
        assert(b == s.len());
    }
}

/// The string with leading and trailing whitespace removed.
pub fn trim_str<'a>(s: &'a str) -> (r: &'a str)
    ensures
        r@ == trim_spec(s@),
{
    let len = s.unicode_len();
    let mut a: usize = 0;
    while a < len && char_is_whitespace(s.get_char(a))
        invariant
            len == s@.len(),
            a <= len,
            forall|k: int| 0 <= k < a ==> is_space_char(s@[k]),
        decreases len - a,
    {
        a += 1;
    }
    proof {
        lemma_leading_spaces_from_scan(s@, a as int);
    }
    if a == len {
        let r = s.substring_char(0, 0);
        proof {
            assert(r@ =~= trim_spec(s@));
        }
        return r;
    }
    let mut b: usize = len;
    while b > a && char_is_whitespace(s.get_char(b - 1))
        invariant
            len == s@.len(),
            a <= b <= len,
            a < len,
            !is_space_char(s@[a as int]),
            forall|k: int| b <= k < len ==> is_space_char(s@[k]),
        decreases b,
    {
        b -= 1;
    }
    proof {
        assert(b > a);
        lemma_trailing_spaces_from_scan(s@, b as int);
    }
    s.substring_char(a, b)
}

/// The decimal digit character for a value below ten.
pub open spec fn digit_char(d: int) -> char {
    if d == 0 {
        '0'
    } else if d == 1 {
        '1'
    } else if d == 2 {
        '2'
    } else if d == 3 {
        '3'
    } else if d == 4 {
        '4'
    } else if d == 5 {
        '5'
    } else if d == 6 {
        '6'
    } else if d == 7 {
        '7'
    } else if d == 8 {
        '8'
    } else {
        '9'
    }
}

/// The decimal rendering of a non-negative integer.
pub open spec fn decimal_rec(n: int) -> Seq<char>
    decreases n,
{
    if n < 10 {
        seq![digit_char(n)]
    } else {
        decimal_rec(n / 10).push(digit_char(n % 10))
    }
}

/// The decimal rendering of an integer, sign included.
pub open spec fn decimal_of(n: int) -> Seq<char> {
    if n < 0 {
        seq!['-'] + decimal_rec(-n)
    } else {
        decimal_rec(n)
    }
}

/// The single-character string for a digit value.
fn digit_str(d: u64) -> (r: &'static str)
    requires
        d < 10,
    ensures
        r@ =~= seq![digit_char(d as int)],
{
    proof {
        reveal_strlit("0");
        reveal_strlit("1");
        reveal_strlit("2");
        reveal_strlit("3");
        reveal_strlit("4");
        reveal_strlit("5");
        reveal_strlit("6");
        reveal_strlit("7");
        reveal_strlit("8");
        reveal_strlit("9");
    }
    if d == 0 {
        "0"
    } else if d == 1 {
        "1"
    } else if d == 2 {
        "2"
    } else if d == 3 {
        "3"
    } else if d == 4 {
        "4"
    } else if d == 5 {
        "5"
    } else if d == 6 {
        "6"
    } else if d == 7 {
        "7"
    } else if d == 8 {
        "8"
    } else {
        "9"
    }
}

/// The decimal rendering of an unsigned value.
pub fn u64_to_string(n: u64) -> (r: String)
    ensures
        r@ == decimal_rec(n as int),
    decreases n,
{
    if n < 10 {
        let r = String::from_str(digit_str(n));
        proof {
            assert(r@ =~= decimal_rec(n as int));
        }
        r
    } else {
        let prefix = u64_to_string(n / 10);
        let r = prefix.concat(digit_str(n % 10));
        proof {
            assert(r@ =~= decimal_rec(n as int));
        }
        r
    }
}

/// The decimal rendering of a signed value, sign included.
pub fn i64_to_string(n: i64) -> (r: String)
    ensures
        r@ == decimal_of(n as int),
{
    if n >= 0 {
        u64_to_string(n as u64)
    } else {
        let mag: u64 = (-(n as i128)) as u64;
        proof {
            reveal_strlit("-");
        }
        let r = String::from_str("-").concat(u64_to_string(mag).as_str());
        proof {
            assert(r@ =~= decimal_of(n as int));
        }
        r
    }
}

} // verus!
