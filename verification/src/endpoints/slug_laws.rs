//! Laws of slug normalisation on ASCII text.
use vstd::prelude::*;
use crate::text::{all_ascii, ascii_lowercase, is_ascii_char, trim_end_char, trim_start_char};
use crate::endpoints::core_routes::{
    ascii_normalize_slug, ascii_slug_char_test, ascii_white_space_test, keep_by,
    over_slug_alphabet, slug_alphabet_char, spaces_to_hyphens, trim_by, trim_end_by, trim_hyphens,
    trim_start_by,
};

verus! {

/// A slug that normalisation leaves as it is: over the slug alphabet and neither
/// starting nor ending with a hyphen.
pub open spec fn is_canonical_slug(s: Seq<char>) -> bool {
    &&& over_slug_alphabet(s)
    &&& s.len() > 0 ==> s[0] != '-' && s.last() != '-'
}

/// No character of `s` is an ASCII capital letter.
spec fn no_capitals(s: Seq<char>) -> bool {
    forall|i: int| 0 <= i < s.len() ==> !('A' <= #[trigger] s[i] <= 'Z')
}

proof fn lemma_keep_by_chars(s: Seq<char>, p: spec_fn(char) -> bool)
    ensures
        forall|i: int|
            0 <= i < keep_by(s, p).len() ==> p(#[trigger] keep_by(s, p)[i]) && exists|j: int|
                0 <= j < s.len() && s[j] == keep_by(s, p)[i],
    decreases s.len(),
{
    if s.len() > 0 {
        let t = s.drop_last();
        lemma_keep_by_chars(t, p);
        assert forall|i: int| 0 <= i < keep_by(s, p).len() implies p(
            #[trigger] keep_by(s, p)[i],
        ) && exists|j: int| 0 <= j < s.len() && s[j] == keep_by(s, p)[i] by {
            if p(s.last()) && i == keep_by(t, p).len() {
                assert(s[s.len() - 1] == keep_by(s, p)[i]);
            } else {
                assert(keep_by(s, p)[i] == keep_by(t, p)[i]);
                let j = choose|j: int| 0 <= j < t.len() && t[j] == keep_by(t, p)[i];
                assert(s[j] == keep_by(s, p)[i]);
            }
        }
    }
}

proof fn lemma_keep_by_all(s: Seq<char>, p: spec_fn(char) -> bool)
    requires
        forall|i: int| 0 <= i < s.len() ==> p(#[trigger] s[i]),
    ensures
        keep_by(s, p) == s,
    decreases s.len(),
{
    if s.len() > 0 {
        let t = s.drop_last();
        assert forall|i: int| 0 <= i < t.len() implies p(#[trigger] t[i]) by {
            assert(t[i] == s[i]);
        }
        lemma_keep_by_all(t, p);
        assert(p(s[s.len() - 1]));
        assert(t.push(s.last()) =~= s);
    }
}

proof fn lemma_trim_start_by_none(s: Seq<char>, p: spec_fn(char) -> bool)
    requires
        s.len() > 0 ==> !p(s[0]),
    ensures
        trim_start_by(s, p) == s,
{
}

proof fn lemma_trim_end_by_none(s: Seq<char>, p: spec_fn(char) -> bool)
    requires
        s.len() > 0 ==> !p(s.last()),
    ensures
        trim_end_by(s, p) == s,
{
}

proof fn lemma_trim_start_char_shape(s: Seq<char>, c: char)
    ensures
        exists|a: int|
            0 <= a <= s.len() && trim_start_char(s, c) == #[trigger] s.subrange(a, s.len() as int),
        trim_start_char(s, c).len() > 0 ==> trim_start_char(s, c)[0] != c,
    decreases s.len(),
{
    if s.len() > 0 && s[0] == c {
        let t = s.drop_first();
        lemma_trim_start_char_shape(t, c);
        let a = choose|a: int|
            0 <= a <= t.len() && trim_start_char(t, c) == #[trigger] t.subrange(a, t.len() as int);
        assert(t.subrange(a, t.len() as int) =~= s.subrange(a + 1, s.len() as int));
    } else {
        assert(s.subrange(0, s.len() as int) =~= s);
    }
}

proof fn lemma_trim_end_char_shape(s: Seq<char>, c: char)
    ensures
        exists|b: int| 0 <= b <= s.len() && trim_end_char(s, c) == #[trigger] s.subrange(0, b),
        trim_end_char(s, c).len() > 0 ==> trim_end_char(s, c).last() != c,
    decreases s.len(),
{
    if s.len() > 0 && s.last() == c {
        let t = s.drop_last();
        lemma_trim_end_char_shape(t, c);
        let b = choose|b: int| 0 <= b <= t.len() && trim_end_char(t, c) == #[trigger] t.subrange(0, b);
        assert(t.subrange(0, b) =~= s.subrange(0, b));
    } else {
        assert(s.subrange(0, s.len() as int) =~= s);
    }
}

/// Trimming hyphens returns a piece of the text that neither starts nor ends with one.
pub(crate) proof fn lemma_trim_hyphens_shape(s: Seq<char>)
    ensures
        exists|a: int, b: int| 0 <= a <= b <= s.len() && trim_hyphens(s) == #[trigger] s.subrange(a, b),
        trim_hyphens(s).len() > 0 ==> trim_hyphens(s)[0] != '-' && trim_hyphens(s).last() != '-',
{
    lemma_trim_start_char_shape(s, '-');
    let t = trim_start_char(s, '-');
    let a = choose|a: int| 0 <= a <= s.len() && t == #[trigger] s.subrange(a, s.len() as int);
    lemma_trim_end_char_shape(t, '-');
    let b = choose|b: int| 0 <= b <= t.len() && trim_end_char(t, '-') == #[trigger] t.subrange(0, b);
    assert(t.subrange(0, b) =~= s.subrange(a, a + b));
    if trim_hyphens(s).len() > 0 {
        assert(trim_hyphens(s)[0] == t[0]);
    }
}

proof fn lemma_trim_start_by_shape(s: Seq<char>, p: spec_fn(char) -> bool)
    ensures
        exists|a: int| 0 <= a <= s.len() && trim_start_by(s, p) == #[trigger] s.subrange(a, s.len() as int),
    decreases s.len(),
{
    if s.len() > 0 && p(s[0]) {
        let t = s.drop_first();
        lemma_trim_start_by_shape(t, p);
        let a = choose|a: int|
            0 <= a <= t.len() && trim_start_by(t, p) == #[trigger] t.subrange(a, t.len() as int);
        assert(t.subrange(a, t.len() as int) =~= s.subrange(a + 1, s.len() as int));
    } else {
        assert(s.subrange(0, s.len() as int) =~= s);
    }
}

proof fn lemma_trim_end_by_shape(s: Seq<char>, p: spec_fn(char) -> bool)
    ensures
        exists|b: int| 0 <= b <= s.len() && trim_end_by(s, p) == #[trigger] s.subrange(0, b),
    decreases s.len(),
{
    if s.len() > 0 && p(s.last()) {
        let t = s.drop_last();
        lemma_trim_end_by_shape(t, p);
        let b = choose|b: int| 0 <= b <= t.len() && trim_end_by(t, p) == #[trigger] t.subrange(0, b);
        assert(t.subrange(0, b) =~= s.subrange(0, b));
    } else {
        assert(s.subrange(0, s.len() as int) =~= s);
    }
}

pub(crate) proof fn lemma_trim_by_shape(s: Seq<char>, p: spec_fn(char) -> bool)
    ensures
        exists|a: int, b: int| 0 <= a <= b <= s.len() && trim_by(s, p) == #[trigger] s.subrange(a, b),
{
    lemma_trim_start_by_shape(s, p);
    let t = trim_start_by(s, p);
    let a = choose|a: int| 0 <= a <= s.len() && t == #[trigger] s.subrange(a, s.len() as int);
    lemma_trim_end_by_shape(t, p);
    let b = choose|b: int| 0 <= b <= t.len() && trim_end_by(t, p) == #[trigger] t.subrange(0, b);
    assert(t.subrange(0, b) =~= s.subrange(a, a + b));
}

/// Whatever the input, ASCII normalisation yields text over the slug alphabet.
pub proof fn lemma_ascii_normalize_over_alphabet(s: Seq<char>)
    ensures
        over_slug_alphabet(ascii_normalize_slug(s)),
{
    let l = ascii_lowercase(s);
    assert(no_capitals(l)) by {
        assert forall|i: int| 0 <= i < l.len() implies !('A' <= #[trigger] l[i] <= 'Z') by {
            let c = s[i];
            if 'A' <= c <= 'Z' {
                assert(l[i] == ((c as u32) + 32) as char);
            }
        }
    }
    let t = trim_by(l, ascii_white_space_test());
    lemma_trim_by_shape(l, ascii_white_space_test());
    let (a, b) = choose|a: int, b: int| 0 <= a <= b <= l.len() && t == #[trigger] l.subrange(a, b);
    assert(no_capitals(t)) by {
        assert forall|i: int| 0 <= i < t.len() implies !('A' <= #[trigger] t[i] <= 'Z') by {
            assert(t[i] == l[a + i]);
        }
    }
    let d = spaces_to_hyphens(t);
    assert(no_capitals(d)) by {
        assert forall|i: int| 0 <= i < d.len() implies !('A' <= #[trigger] d[i] <= 'Z') by {
            assert(t[i] == t[i]);
        }
    }
    let h = trim_hyphens(d);
    lemma_trim_hyphens_shape(d);
    let (a2, b2) = choose|a: int, b: int| 0 <= a <= b <= d.len() && h == #[trigger] d.subrange(a, b);
    assert(no_capitals(h)) by {
        assert forall|i: int| 0 <= i < h.len() implies !('A' <= #[trigger] h[i] <= 'Z') by {
            assert(h[i] == d[a2 + i]);
        }
    }
    let k = keep_by(h, ascii_slug_char_test());
    lemma_keep_by_chars(h, ascii_slug_char_test());
    assert forall|i: int| 0 <= i < k.len() implies slug_alphabet_char(#[trigger] k[i]) by {
        assert(ascii_slug_char_test()(k[i]));
        let j = choose|j: int| 0 <= j < h.len() && h[j] == k[i];
        assert(!('A' <= h[j] <= 'Z'));
    }
}

/// ASCII normalisation of text over the slug alphabet only trims its hyphens.
proof fn lemma_normalize_alphabet_text(u: Seq<char>)
    requires
        over_slug_alphabet(u),
    ensures
        ascii_normalize_slug(u) == trim_hyphens(u),
{
    assert(ascii_lowercase(u) =~= u) by {
        assert forall|i: int| 0 <= i < u.len() implies #[trigger] ascii_lowercase(u)[i] == u[i] by {
            assert(slug_alphabet_char(u[i]));
        }
    }
    let w = ascii_white_space_test();
    if u.len() > 0 {
        assert(slug_alphabet_char(u[0]));
        assert(slug_alphabet_char(u[u.len() - 1]));
    }
    lemma_trim_start_by_none(u, w);
    lemma_trim_end_by_none(u, w);
    assert(trim_by(u, w) == u);
    assert(spaces_to_hyphens(u) =~= u) by {
        assert forall|i: int| 0 <= i < u.len() implies #[trigger] spaces_to_hyphens(u)[i] == u[i] by {
            assert(slug_alphabet_char(u[i]));
        }
    }
    let h = trim_hyphens(u);
    lemma_trim_hyphens_shape(u);
    let (a, b) = choose|a: int, b: int| 0 <= a <= b <= u.len() && h == #[trigger] u.subrange(a, b);
    assert forall|i: int| 0 <= i < h.len() implies ascii_slug_char_test()(#[trigger] h[i]) by {
        assert(h[i] == u[a + i]);
        assert(slug_alphabet_char(u[a + i]));
    }
    lemma_keep_by_all(h, ascii_slug_char_test());
}

/// A canonical slug is left unchanged by normalisation.
pub proof fn lemma_canonical_slug_is_fixed(t: Seq<char>)
    requires
        is_canonical_slug(t),
    ensures
        ascii_normalize_slug(t) == t,
{
    lemma_normalize_alphabet_text(t);
    assert(trim_start_char(t, '-') == t);
    assert(trim_end_char(t, '-') == t);
}

/// Normalising text over the slug alphabet yields a canonical slug.
pub proof fn lemma_normalize_alphabet_is_canonical(u: Seq<char>)
    requires
        over_slug_alphabet(u),
    ensures
        is_canonical_slug(ascii_normalize_slug(u)),
{
    lemma_normalize_alphabet_text(u);
    let h = trim_hyphens(u);
    lemma_trim_hyphens_shape(u);
    let (a, b) = choose|a: int, b: int| 0 <= a <= b <= u.len() && h == #[trigger] u.subrange(a, b);
    assert forall|i: int| 0 <= i < h.len() implies slug_alphabet_char(#[trigger] h[i]) by {
        assert(h[i] == u[a + i]);
    }
}

/// Normalisation settles after two rounds: normalising the canonical form of a
/// normalised slug changes nothing. So the redirect to the canonical URL of an
/// ASCII slug ends after at most two hops.
pub proof fn law_normalize_settles(s: Seq<char>)
    ensures
        is_canonical_slug(ascii_normalize_slug(ascii_normalize_slug(s))),
        ascii_normalize_slug(ascii_normalize_slug(ascii_normalize_slug(s)))
            == ascii_normalize_slug(ascii_normalize_slug(s)),
        all_ascii(ascii_normalize_slug(s)),
{
    lemma_ascii_normalize_over_alphabet(s);
    let u = ascii_normalize_slug(s);
    lemma_normalize_alphabet_is_canonical(u);
    lemma_canonical_slug_is_fixed(ascii_normalize_slug(u));
    assert forall|i: int| 0 <= i < u.len() implies is_ascii_char(#[trigger] u[i]) by {
        assert(slug_alphabet_char(u[i]));
    }
}


/// Normalisation is idempotent where its result neither starts nor ends with a hyphen:
/// normalising that result again leaves it as it is (for ASCII text).
pub proof fn law_normalize_idempotent_without_edge_hyphens(s: Seq<char>)
    requires
        ascii_normalize_slug(s).len() > 0 ==> ascii_normalize_slug(s)[0] != '-'
            && ascii_normalize_slug(s).last() != '-',
    ensures
        ascii_normalize_slug(ascii_normalize_slug(s)) == ascii_normalize_slug(s),
{
    lemma_ascii_normalize_over_alphabet(s);
    lemma_canonical_slug_is_fixed(ascii_normalize_slug(s));
}

} // verus!
