//! Character-level text helpers shared by the rest of the crate.
use vstd::prelude::*;

verus! {

broadcast use vstd::string::axiom_spec_iter;

/// The characters of `s`, in order.
pub(crate) fn chars_of(s: &str) -> (r: Vec<char>)
    ensures
        r@ == s@,
{
    let mut out: Vec<char> = Vec::new();
    for c in it: s.chars()
        invariant
            it.seq() == s@,
            out@ == it.seq().take(it.index() as int),
    {
        out.push(c);
    }
    out
}

/// The string made of the characters of `v`, in order (`String::from_iter` over the
/// slice, std's `FromIterator<&char>` for `String`).
#[verifier::external_body]
pub(crate) fn string_from_chars(v: &[char]) -> (r: String)
    ensures
        r@ == v@,
{
    String::from_iter(v)
}

/// Unicode lowercase of a whole string, as `str::to_lowercase` computes it
/// (the Lowercase mapping, with the final-sigma rule of that method).
pub uninterp spec fn unicode_lowercase(s: Seq<char>) -> Seq<char>;

/// The Unicode `White_Space` property of a character, as `char::is_whitespace` tests it.
pub uninterp spec fn unicode_white_space(c: char) -> bool;

/// The Unicode `Alphabetic` or `Numeric` property of a character, as
/// `char::is_alphanumeric` tests it.
pub uninterp spec fn unicode_alphanumeric(c: char) -> bool;

/// The character is ASCII.
pub open spec fn is_ascii_char(c: char) -> bool {
    (c as u32) < 128
}

/// Every character of `s` is ASCII.
pub open spec fn all_ascii(s: Seq<char>) -> bool {
    forall|i: int| 0 <= i < s.len() ==> is_ascii_char(#[trigger] s[i])
}

/// ASCII lowercase of one character: `A`..`Z` become `a`..`z`, everything else is kept.
pub open spec fn ascii_lower_char(c: char) -> char {
    if 'A' <= c <= 'Z' {
        ((c as u32) + 32) as char
    } else {
        c
    }
}

/// ASCII lowercase of every character of `s`.
pub open spec fn ascii_lowercase(s: Seq<char>) -> Seq<char> {
    s.map_values(|c: char| ascii_lower_char(c))
}

/// `str::to_lowercase`. Its result is named by `unicode_lowercase`; on text made only of
/// ASCII characters the Unicode mapping is the ASCII one (`A`..`Z` to `a`..`z`).
#[verifier::external_body]
pub(crate) fn str_to_lowercase(s: &str) -> (r: String)
    ensures
        r@ == unicode_lowercase(s@),
        all_ascii(s@) ==> r@ == ascii_lowercase(s@),
{
    s.to_lowercase()
}

/// `char::is_whitespace`. Its result is named by `unicode_white_space`; among ASCII
/// characters exactly the space and `U+0009`..`U+000D` have the property.
#[verifier::external_body]
pub(crate) fn char_is_whitespace(c: char) -> (r: bool)
    ensures
        r == unicode_white_space(c),
        is_ascii_char(c) ==> (r <==> (c == ' ' || ('\u{9}' <= c <= '\u{d}'))),
{
    c.is_whitespace()
}

/// `char::is_alphanumeric`. Its result is named by `unicode_alphanumeric`; among ASCII
/// characters exactly the letters and digits have the property.
#[verifier::external_body]
pub(crate) fn char_is_alphanumeric(c: char) -> (r: bool)
    ensures
        r == unicode_alphanumeric(c),
        is_ascii_char(c) ==> (r <==> ('a' <= c <= 'z' || 'A' <= c <= 'Z' || '0' <= c <= '9')),
{
    c.is_alphanumeric()
}

/// `p` is a prefix of `s`.
pub open spec fn starts_with(s: Seq<char>, p: Seq<char>) -> bool {
    p.len() <= s.len() && s.subrange(0, p.len() as int) == p
}

/// `p` occurs somewhere in `s` as a contiguous piece.
pub open spec fn contains_piece(s: Seq<char>, p: Seq<char>) -> bool {
    exists|i: int| 0 <= i <= s.len() - p.len() && #[trigger] s.subrange(i, i + p.len()) == p
}

/// Every non-overlapping occurrence of the non-empty `pat` in `s`, scanning from the
/// left, replaced by `rep` (what `str::replace` computes).
pub open spec fn replace_all(s: Seq<char>, pat: Seq<char>, rep: Seq<char>) -> Seq<char>
    decreases s.len(),
{
    if pat.len() == 0 || s.len() < pat.len() {
        s
    } else if starts_with(s, pat) {
        rep + replace_all(s.subrange(pat.len() as int, s.len() as int), pat, rep)
    } else {
        seq![s[0]] + replace_all(s.subrange(1, s.len() as int), pat, rep)
    }
}

/// `s` with every trailing `c` removed (what `str::trim_end_matches(c)` computes).
pub open spec fn trim_end_char(s: Seq<char>, c: char) -> Seq<char>
    decreases s.len(),
{
    if s.len() > 0 && s.last() == c {
        trim_end_char(s.drop_last(), c)
    } else {
        s
    }
}

/// `s` with every leading `c` removed.
pub open spec fn trim_start_char(s: Seq<char>, c: char) -> Seq<char>
    decreases s.len(),
{
    if s.len() > 0 && s[0] == c {
        trim_start_char(s.drop_first(), c)
    } else {
        s
    }
}

/// Two character vectors hold the same text.
pub fn chars_equal(a: &[char], b: &[char]) -> (r: bool)
    ensures
        r == (a@ == b@),
{
    if a.len() != b.len() {
        return false;
    }
    let mut i: usize = 0;
    while i < a.len()
        invariant
            a@.len() == b@.len(),
            i <= a@.len(),
            forall|j: int| 0 <= j < i ==> a@[j] == b@[j],
        decreases a@.len() - i,
    {
        if a[i] != b[i] {
            return false;
        }
        i = i + 1;
    }
    assert(a@ =~= b@);
    true
}

/// Two string slices hold the same text.
pub fn text_equals(a: &str, b: &str) -> (r: bool)
    ensures
        r == (a@ == b@),
{
    let va = chars_of(a);
    let vb = chars_of(b);
    chars_equal(va.as_slice(), vb.as_slice())
}

/// Whether `pat` occurs in `s` starting at position `at`.
fn piece_at(s: &[char], pat: &[char], at: usize) -> (r: bool)
    requires
        at <= s@.len(),
    ensures
        r == (at + pat@.len() <= s@.len() && s@.subrange(at as int, at + pat@.len()) == pat@),
{
    let n = s.len();
    if pat.len() > n - at {
        return false;
    }
    let mut j: usize = 0;
    while j < pat.len()
        invariant
            n == s@.len(),
            at + pat@.len() <= s@.len(),
            j <= pat@.len(),
            forall|k: int| 0 <= k < j ==> s@[at + k] == pat@[k],
        decreases pat@.len() - j,
    {
        if s[at + j] != pat[j] {
            assert(s@.subrange(at as int, at + pat@.len())[j as int] != pat@[j as int]);
            return false;
        }
        j = j + 1;
    }
    assert(s@.subrange(at as int, at + pat@.len()) =~= pat@);
    true
}

/// Whether `pat` occurs in `s`.
pub fn contains_text(s: &[char], pat: &[char]) -> (r: bool)
    ensures
        r == contains_piece(s@, pat@),
{
    if pat.len() > s.len() {
        return false;
    }
    let last = s.len() - pat.len();
    let mut i: usize = 0;
    while i <= last
        invariant
            last == s@.len() - pat@.len(),
            pat@.len() <= s@.len(),
            i <= last + 1,
            forall|k: int| 0 <= k < i ==> #[trigger] s@.subrange(k, k + pat@.len()) != pat@,
        decreases last + 1 - i,
    {
        if piece_at(s, pat, i) {
            return true;
        }
        if i == last {
            return false;
        }
        i = i + 1;
    }
    false
}

/// `s` with every occurrence of the non-empty `pat` replaced by `rep`.
pub fn replace_text(s: &[char], pat: &[char], rep: &[char]) -> (r: Vec<char>)
    requires
        pat@.len() > 0,
    ensures
        r@ == replace_all(s@, pat@, rep@),
{
    let n = s.len();
    let mut out: Vec<char> = Vec::new();
    let mut i: usize = 0;
    assert(s@.subrange(0, n as int) =~= s@);
    assert(out@ + s@ =~= s@);
    while i < n
        invariant
            n == s@.len(),
            pat@.len() > 0,
            i <= n,
            out@ + replace_all(s@.subrange(i as int, n as int), pat@, rep@) == replace_all(
                s@,
                pat@,
                rep@,
            ),
        decreases n - i,
    {
        let ghost rest = s@.subrange(i as int, n as int);
        if piece_at(s, pat, i) {
            proof {
                assert(rest.subrange(0, pat@.len() as int) =~= pat@);
                assert(rest.subrange(pat@.len() as int, rest.len() as int) =~= s@.subrange(
                    i + pat@.len(),
                    n as int,
                ));
            }
            let mut k: usize = 0;
            let ghost before = out@;
            while k < rep.len()
                invariant
                    k <= rep@.len(),
                    out@ == before + rep@.subrange(0, k as int),
                decreases rep@.len() - k,
            {
                out.push(rep[k]);
                k = k + 1;
                proof {
                    assert(rep@.subrange(0, k as int) =~= rep@.subrange(0, k - 1).push(rep@[k - 1]));
                }
            }
            proof {
                assert(rep@.subrange(0, rep@.len() as int) =~= rep@);
                assert(out@ + replace_all(s@.subrange(i + pat@.len(), n as int), pat@, rep@)
                    =~= before + replace_all(rest, pat@, rep@));
            }
            i = i + pat.len();
        } else {
            proof {
                if rest.len() >= pat@.len() {
                    assert(!starts_with(rest, pat@)) by {
                        assert(rest.subrange(0, pat@.len() as int) =~= s@.subrange(
                            i as int,
                            i + pat@.len(),
                        ));
                    }
                    assert(rest.subrange(1, rest.len() as int) =~= s@.subrange(i + 1, n as int));
                    assert(replace_all(rest, pat@, rep@) == seq![rest[0]] + replace_all(
                        s@.subrange(i + 1, n as int),
                        pat@,
                        rep@,
                    ));
                } else {
                    let rest1 = s@.subrange(i + 1, n as int);
                    assert(replace_all(rest, pat@, rep@) == rest);
                    assert(replace_all(rest1, pat@, rep@) == rest1);
                    assert(rest =~= seq![s@[i as int]] + rest1);
                }
            }
            let ghost before = out@;
            out.push(s[i]);
            proof {
                assert(out@ + replace_all(s@.subrange(i + 1, n as int), pat@, rep@) =~= before
                    + replace_all(rest, pat@, rep@));
            }
            i = i + 1;
        }
    }
    proof {
        assert(s@.subrange(n as int, n as int) =~= Seq::<char>::empty());
        assert(out@ =~= out@ + Seq::<char>::empty());
    }
    out
}

/// The characters of `s` from position `a` up to (not including) `b`.
pub fn copy_range(s: &[char], a: usize, b: usize) -> (r: Vec<char>)
    requires
        a <= b <= s@.len(),
    ensures
        r@ == s@.subrange(a as int, b as int),
{
    let mut out: Vec<char> = Vec::new();
    let mut i: usize = a;
    while i < b
        invariant
            a <= i <= b,
            b <= s@.len(),
            out@ == s@.subrange(a as int, i as int),
        decreases b - i,
    {
        out.push(s[i]);
        i = i + 1;
        proof {
            assert(out@ =~= s@.subrange(a as int, i as int));
        }
    }
    out
}

/// `s` with every trailing `c` removed.
pub fn trim_end_text(s: &[char], c: char) -> (r: Vec<char>)
    ensures
        r@ == trim_end_char(s@, c),
{
    let mut end: usize = s.len();
    assert(s@.subrange(0, end as int) =~= s@);
    while end > 0 && s[end - 1] == c
        invariant
            end <= s@.len(),
            trim_end_char(s@.subrange(0, end as int), c) == trim_end_char(s@, c),
        decreases end,
    {
        proof {
            assert(s@.subrange(0, end as int).drop_last() =~= s@.subrange(0, end - 1));
        }
        end = end - 1;
    }
    copy_range(s, 0, end)
}

/// `s` with every leading `c` removed.
pub fn trim_start_text(s: &[char], c: char) -> (r: Vec<char>)
    ensures
        r@ == trim_start_char(s@, c),
{
    let n = s.len();
    let mut start: usize = 0;
    assert(s@.subrange(0, n as int) =~= s@);
    while start < n && s[start] == c
        invariant
            n == s@.len(),
            start <= n,
            trim_start_char(s@.subrange(start as int, n as int), c) == trim_start_char(s@, c),
        decreases n - start,
    {
        proof {
            assert(s@.subrange(start as int, n as int).drop_first() =~= s@.subrange(
                start + 1,
                n as int,
            ));
        }
        start = start + 1;
    }
    copy_range(s, start, n)
}

/// The decimal digit for `d` in `0..10`.
pub open spec fn digit_char(d: int) -> char {
    (('0' as u32) + d) as char
}

/// The decimal digits of a natural number, most significant first, without leading zeros
/// (a single `0` for zero).
pub open spec fn decimal_digits(n: nat) -> Seq<char>
    decreases n,
{
    if n < 10 {
        seq![digit_char(n as int)]
    } else {
        decimal_digits(n / 10).push(digit_char((n % 10) as int))
    }
}

/// The decimal notation of an integer, with a leading `-` for negative numbers
/// (what `format!("{}", n)` writes).
pub open spec fn decimal_text(n: int) -> Seq<char> {
    if n < 0 {
        seq!['-'] + decimal_digits((-n) as nat)
    } else {
        decimal_digits(n as nat)
    }
}

/// The character of a decimal digit.
fn char_of_digit(d: u64) -> (c: char)
    requires
        d < 10,
    ensures
        c == digit_char(d as int),
{
    let b: u8 = 48u8 + (d as u8);
    let c = b as char;
    assert(c == digit_char(d as int));
    c
}

/// The decimal digits of `n`.
pub fn u64_digits(n: u64) -> (r: Vec<char>)
    ensures
        r@ == decimal_digits(n as nat),
    decreases n,
{
    if n < 10 {
        let mut v: Vec<char> = Vec::new();
        v.push(char_of_digit(n));
        assert(v@ =~= decimal_digits(n as nat));
        v
    } else {
        let mut v = u64_digits(n / 10);
        v.push(char_of_digit(n % 10));
        v
    }
}

/// The decimal notation of `n` (see [`decimal_text`]).
pub fn i64_decimal(n: i64) -> (r: Vec<char>)
    ensures
        r@ == decimal_text(n as int),
{
    if n < 0 {
        let magnitude: u64 = ((-(n + 1)) as u64) + 1;
        let digits = u64_digits(magnitude);
        let mut out: Vec<char> = Vec::new();
        out.push('-');
        let mut i: usize = 0;
        while i < digits.len()
            invariant
                i <= digits@.len(),
                out@ == seq!['-'] + digits@.subrange(0, i as int),
            decreases digits@.len() - i,
        {
            out.push(digits[i]);
            i = i + 1;
            proof {
                assert(out@ =~= seq!['-'] + digits@.subrange(0, i as int));
            }
        }
        assert(digits@.subrange(0, digits@.len() as int) =~= digits@);
        out
    } else {
        u64_digits(n as u64)
    }
}

/// The text of `a` followed by the text of `b`.
pub fn concat_strs(a: &str, b: &str) -> (r: String)
    ensures
        r@ == a@ + b@,
{
    let mut out = chars_of(a);
    let mut tail = chars_of(b);
    out.append(&mut tail);
    string_from_chars(out.as_slice())
}

} // verus!
