//! Verified helpers over strings: character extraction, equality,
//! substring search, ASCII case folding, and truncation.

use vstd::prelude::*;
use vstd::string::StrSliceExecFns;
use vstd::string::StringExecFns;

verus! {

/// `sub` occurs in `s` starting at position `i`.
pub open spec fn is_match_at(s: Seq<char>, sub: Seq<char>, i: int) -> bool {
    0 <= i && i + sub.len() <= s.len() && s.subrange(i, i + sub.len()) == sub
}

/// `sub` occurs somewhere in `s`.
pub open spec fn has_substring(s: Seq<char>, sub: Seq<char>) -> bool {
    exists|i: int| is_match_at(s, sub, i)
}

/// ASCII uppercase letters fold to lowercase; all other characters are kept.
pub open spec fn lower_char(c: char) -> char {
    if 65 <= c as u32 && c as u32 <= 90 {
        (((c as u32) + 32) as u8) as char
    } else {
        c
    }
}

/// A sequence of characters, each folded by `lower_char`.
pub open spec fn lower_chars(s: Seq<char>) -> Seq<char> {
    s.map_values(|c: char| lower_char(c))
}

/// The characters of `s`, one by one.
pub fn chars_of(s: &str) -> (r: Vec<char>)
    ensures
        r@ == s@,
{
    let n = s.unicode_len();
    let mut v: Vec<char> = Vec::new();
    let mut i: usize = 0;
    while i < n
        invariant
            n == s@.len(),
            i <= n,
            v@ == s@.subrange(0, i as int),
        decreases n - i,
    {
        let c = s.get_char(i);
        v.push(c);
        i = i + 1;
        proof {
            assert(v@ =~= s@.subrange(0, i as int));
        }
    }
    proof {
        assert(v@ =~= s@);
    }
    v
}

/// Character-wise string equality.
pub fn str_eq(a: &str, b: &str) -> (r: bool)
    ensures
        r == (a@ == b@),
{
    let an = a.unicode_len();
    let bn = b.unicode_len();
    if an != bn {
        return false;
    }
    let mut i: usize = 0;
    while i < an
        invariant
            an == a@.len(),
            an == b@.len(),
            i <= an,
            forall|j: int| 0 <= j < i ==> a@[j] == b@[j],
        decreases an - i,
    {
        if a.get_char(i) != b.get_char(i) {
            return false;
        }
        i = i + 1;
    }
    proof {
        assert(a@ =~= b@);
    }
    true
}

/// Fold one character to ASCII lowercase.
pub fn to_lower_char(c: char) -> (r: char)
    ensures
        r == lower_char(c),
{
    let u = c as u32;
    if 65 <= u && u <= 90 {
        ((u + 32) as u8) as char
    } else {
        c
    }
}

/// Fold a character sequence to ASCII lowercase.
pub fn to_lower_chars(v: &Vec<char>) -> (r: Vec<char>)
    ensures
        r@ == lower_chars(v@),
{
    let mut out: Vec<char> = Vec::new();
    let mut i: usize = 0;
    while i < v.len()
        invariant
            i <= v@.len(),
            out@ == lower_chars(v@.subrange(0, i as int)),
        decreases v@.len() - i,
    {
        out.push(to_lower_char(v[i]));
        i = i + 1;
        proof {
            assert(out@ =~= lower_chars(v@.subrange(0, i as int)));
        }
    }
    proof {
        assert(out@ =~= lower_chars(v@));
    }
    out
}

/// Whether `sub` occurs in `hay`, by direct search.
pub fn contains_chars(hay: &Vec<char>, sub: &Vec<char>) -> (r: bool)
    ensures
        r == has_substring(hay@, sub@),
{
    let m = sub.len();
    let n = hay.len();
    if m > n {
        proof {
            assert(forall|i: int| !is_match_at(hay@, sub@, i));
        }
        return false;
    }
    let mut i: usize = 0;
    while i <= n - m
        invariant
            m <= n,
            n == hay@.len(),
            m == sub@.len(),
            i <= n - m + 1,
            forall|k: int| 0 <= k < i ==> !is_match_at(hay@, sub@, k),
        decreases n - m + 1 - i,
    {
        let mut j: usize = 0;
        let mut matched = true;
        while j < m
            invariant
                m <= n,
                n == hay@.len(),
                m == sub@.len(),
                i + m <= n,
                j <= m,
                matched <==> (forall|t: int| 0 <= t < j ==> hay@[i + t] == sub@[t]),
            decreases m - j,
        {
            if hay[i + j] != sub[j] {
                matched = false;
                j = m;
            } else {
                j = j + 1;
            }
        }
        if matched {
            proof {
                assert(hay@.subrange(i as int, i + sub@.len()) =~= sub@);
                assert(is_match_at(hay@, sub@, i as int));
            }
            return true;
        }
        i = i + 1;
    }
    proof {
        assert(forall|k: int| is_match_at(hay@, sub@, k) ==> 0 <= k <= n - m);
    }
    false
}

/// Whether the string `hay` contains the string `sub`.
pub fn contains_str(hay: &str, sub: &str) -> (r: bool)
    ensures
        r == has_substring(hay@, sub@),
{
    let h = chars_of(hay);
    let s = chars_of(sub);
    contains_chars(&h, &s)
}

/// Relies on std's `String::push`: it appends exactly the one
/// character to the string.
#[verifier::external_body]
pub fn push_char(s: &mut String, c: char)
    ensures
        final(s)@ == old(s)@.push(c),
{
    s.push(c)
}

/// What `str::to_uppercase` returns: a function of the characters alone.
pub uninterp spec fn upper_of(s: Seq<char>) -> Seq<char>;

/// Relies on `str::to_uppercase`: the result depends on the
/// characters alone, and an empty string stays empty.
#[verifier::external_body]
pub fn to_uppercase_str(s: &str) -> (r: String)
    ensures
        r@ == upper_of(s@),
        s@.len() == 0 ==> r@.len() == 0,
{
    s.to_uppercase()
}

/// What `str::to_lowercase` returns: a function of the characters alone.
pub uninterp spec fn lower_of(s: Seq<char>) -> Seq<char>;

/// Relies on `str::to_lowercase`: the result depends on the
/// characters alone, and an empty string stays empty.
#[verifier::external_body]
pub fn to_lowercase_str(s: &str) -> (r: String)
    ensures
        r@ == lower_of(s@),
        s@.len() == 0 ==> r@.len() == 0,
{
    s.to_lowercase()
}

/// The string read back to front.
pub fn reverse_str(s: &str) -> (r: String)
    ensures
        r@ == s@.reverse(),
{
    let n = s.unicode_len();
    let mut out = String::new();
    let mut i: usize = n;
    while i > 0
        invariant
            i <= n,
            n == s@.len(),
            out@.len() == n - i,
            forall|k: int| 0 <= k < n - i ==> out@[k] == s@[n - 1 - k],
        decreases i,
    {
        i = i - 1;
        push_char(&mut out, s.get_char(i));
    }
    proof {
        assert(out@ =~= s@.reverse());
    }
    out
}

/// The digits of an unsigned decimal numeral, read as a number.
pub open spec fn decimal_value(s: Seq<char>) -> int
    decreases s.len(),
{
    if s.len() == 0 {
        0
    } else {
        decimal_value(s.drop_last()) * 10 + (s.last() as int - '0' as int)
    }
}

/// A nonempty, all-digit character sequence.
pub open spec fn is_digits(s: Seq<char>) -> bool {
    s.len() > 0 && forall|i: int| 0 <= i < s.len() ==> '0' <= #[trigger] s[i] <= '9'
}

/// Read an unsigned decimal numeral: the number when `s` is nonempty,
/// all digits, and in range, and nothing otherwise.
pub fn parse_usize(s: &str) -> (r: Option<usize>)
    ensures
        match r {
            Some(v) => is_digits(s@) && v == decimal_value(s@),
            None => !is_digits(s@) || decimal_value(s@) > usize::MAX,
        },
{
    let n = s.unicode_len();
    if n == 0 {
        return None;
    }
    let mut value: usize = 0;
    let mut i: usize = 0;
    while i < n
        invariant
            i <= n,
            n == s@.len(),
            n > 0,
            forall|k: int| 0 <= k < i ==> '0' <= #[trigger] s@[k] <= '9',
            value == decimal_value(s@.subrange(0, i as int)),
        decreases n - i,
    {
        let c = s.get_char(i);
        if !('0' <= c && c <= '9') {
            return None;
        }
        let d = (c as u32 - 48) as usize;
        let limit = usize::MAX / 10;
        let rem = usize::MAX % 10;
        proof {
            assert(s@.subrange(0, i + 1 as int).drop_last() =~= s@.subrange(0, i as int));
        }
        if value > limit || (value == limit && d > rem) {
            proof {
                assert(decimal_value(s@.subrange(0, i + 1 as int)) > usize::MAX);
                if is_digits(s@) {
                    lemma_decimal_value_grows(s@, i + 1 as int);
                }
            }
            return None;
        }
        value = value * 10 + d;
        i = i + 1;
    }
    proof {
        assert(s@.subrange(0, n as int) =~= s@);
    }
    Some(value)
}

/// A decimal numeral's value never shrinks as digits follow.
proof fn lemma_decimal_value_grows(s: Seq<char>, i: int)
    requires
        0 < i <= s.len(),
        forall|k: int| 0 <= k < s.len() ==> '0' <= #[trigger] s[k] <= '9',
    ensures
        decimal_value(s) >= decimal_value(s.subrange(0, i)),
    decreases s.len() - i,
{
    if i == s.len() {
        assert(s.subrange(0, i) =~= s);
    } else {
        lemma_decimal_value_grows(s, i + 1);
        assert(s.subrange(0, i + 1).drop_last() =~= s.subrange(0, i));
        assert(decimal_value(s.subrange(0, i + 1)) == decimal_value(s.subrange(0, i)) * 10 + (
        s[i] as int - '0' as int));
        assert(decimal_value(s.subrange(0, i)) >= 0) by {
            lemma_decimal_value_nonneg(s.subrange(0, i));
        }
    }
}

/// A decimal numeral's value is never negative.
proof fn lemma_decimal_value_nonneg(s: Seq<char>)
    requires
        forall|k: int| 0 <= k < s.len() ==> '0' <= #[trigger] s[k] <= '9',
    ensures
        decimal_value(s) >= 0,
    decreases s.len(),
{
    if s.len() > 0 {
        assert(forall|k: int|
            0 <= k < s.drop_last().len() ==> '0' <= #[trigger] s.drop_last()[k] <= '9');
        lemma_decimal_value_nonneg(s.drop_last());
    }
}

/// `s` ends with `suffix`.
pub open spec fn ends_with(s: Seq<char>, suffix: Seq<char>) -> bool {
    s.len() >= suffix.len() && s.subrange(s.len() - suffix.len(), s.len() as int) == suffix
}

/// Whether the string `s` ends with the string `suffix`.
pub fn str_ends_with(s: &str, suffix: &str) -> (r: bool)
    ensures
        r == ends_with(s@, suffix@),
{
    let n = s.unicode_len();
    let m = suffix.unicode_len();
    if m > n {
        return false;
    }
    let mut j: usize = 0;
    while j < m
        invariant
            m <= n,
            n == s@.len(),
            m == suffix@.len(),
            j <= m,
            forall|t: int| 0 <= t < j ==> s@[n - m + t] == suffix@[t],
        decreases m - j,
    {
        if s.get_char(n - m + j) != suffix.get_char(j) {
            return false;
        }
        j = j + 1;
    }
    proof {
        assert(s@.subrange(n - m, n as int) =~= suffix@);
    }
    true
}

/// Shorten `s` to at most `max_len` characters, marking a cut with `...`.
pub fn truncate_string(s: &str, max_len: usize) -> (r: String)
    ensures
        s@.len() <= max_len ==> r@ == s@,
        s@.len() > max_len ==> r@ == s@.subrange(
            0,
            if max_len >= 3 { max_len - 3 } else { 0 as int },
        ) + "..."@,
{
    let n = s.unicode_len();
    if n <= max_len {
        s.to_owned()
    } else {
        let keep: usize = if max_len >= 3 { max_len - 3 } else { 0 };
        let head = s.substring_char(0, keep);
        let out = head.to_owned();
        out.concat("...")
    }
}

} // verus!
