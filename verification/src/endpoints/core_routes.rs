//! Slug handling and the decisions of the paste routes.
use vstd::prelude::*;
use vstd::utf8::encode_utf8;
use crate::clock::{datetime_plus_seconds, utc_now, Timestamp, MAX_TIMESTAMP};
use crate::pasta::{Pasta, PastaView};
use crate::store::PastaStore;
use crate::endpoints::slug_laws::{
    lemma_ascii_normalize_over_alphabet, lemma_canonical_slug_is_fixed,
    lemma_trim_by_shape, lemma_trim_hyphens_shape,
};
use crate::util::misc::{qr_input_can_be_cut, qr_input_fits, spec_string_to_qr_svg, string_to_qr_svg};
use crate::text::{
    ascii_lowercase, concat_strs, contains_piece, contains_text, is_ascii_char,
    all_ascii, char_is_alphanumeric, char_is_whitespace, chars_of, copy_range, str_to_lowercase,
    string_from_chars, text_equals, trim_end_char, trim_end_text, trim_start_char, trim_start_text,
    unicode_alphanumeric, unicode_lowercase, unicode_white_space,
};

verus! {

/// A character of the slug alphabet `[a-z0-9_-]`.
pub open spec fn slug_alphabet_char(c: char) -> bool {
    ('a' <= c <= 'z') || ('0' <= c <= '9') || c == '-' || c == '_'
}

/// Every character of `s` is in the slug alphabet.
pub open spec fn over_slug_alphabet(s: Seq<char>) -> bool {
    forall|i: int| 0 <= i < s.len() ==> slug_alphabet_char(#[trigger] s[i])
}

/// `s` has the shape of a slug: 3 to 50 characters of the slug alphabet (the pattern
/// `^[a-z0-9-_]{3,50}$`).
pub open spec fn slug_format_ok(s: Seq<char>) -> bool {
    3 <= s.len() <= 50 && over_slug_alphabet(s)
}

/// The pattern that slugs must match.
pub const SLUG_PATTERN: &'static str = "^[a-z0-9-_]{3,50}$";

/// `regex::Regex::new(pattern)` matched against `text` with `is_match`; `false` when the
/// pattern does not compile. For [`SLUG_PATTERN`], `^[a-z0-9-_]{3,50}$`: there `^` and `$`
/// anchor at the ends of the text, the class holds `a`..`z`, `0`..`9`, `-` and `_` (a `-`
/// after a range is a literal), and `{3,50}` counts characters; so the text matches
/// exactly when it is 3 to 50 characters of that class. Nothing is stated for other
/// patterns.
#[verifier::external_body]
fn regex_is_match(pattern: &str, text: &str) -> (r: bool)
    ensures
        pattern@ == SLUG_PATTERN@ ==> r == slug_format_ok(text@),
{
    match regex::Regex::new(pattern) {
        Ok(re) => re.is_match(text),
        Err(_) => false,
    }
}

/// Whether `slug` has the shape of a slug (see [`slug_format_ok`]).
pub fn is_slug_format_ok(slug: &str) -> (r: bool)
    ensures
        r == slug_format_ok(slug@),
{
    regex_is_match(SLUG_PATTERN, slug)
}

/// Slugs that cannot be claimed because routes of the service use them.
pub open spec fn is_reserved_slug(s: Seq<char>) -> bool {
    ||| s == "static"@
    ||| s == "public"@
    ||| s == "favicon.ico"@
    ||| s == "raw"@
    ||| s == "api"@
    ||| s == "admin"@
}

/// Whether `slug` is reserved (see [`is_reserved_slug`]).
pub fn is_reserved(slug: &str) -> (r: bool)
    ensures
        r == is_reserved_slug(slug@),
{
    text_equals(slug, "static") || text_equals(slug, "public") || text_equals(slug, "favicon.ico")
        || text_equals(slug, "raw") || text_equals(slug, "api") || text_equals(slug, "admin")
}

/// `s` without the leading characters that satisfy `p`.
pub open spec fn trim_start_by(s: Seq<char>, p: spec_fn(char) -> bool) -> Seq<char>
    decreases s.len(),
{
    if s.len() > 0 && p(s[0]) {
        trim_start_by(s.drop_first(), p)
    } else {
        s
    }
}

/// `s` without the trailing characters that satisfy `p`.
pub open spec fn trim_end_by(s: Seq<char>, p: spec_fn(char) -> bool) -> Seq<char>
    decreases s.len(),
{
    if s.len() > 0 && p(s.last()) {
        trim_end_by(s.drop_last(), p)
    } else {
        s
    }
}

/// `s` without the leading or trailing characters that satisfy `p`.
pub open spec fn trim_by(s: Seq<char>, p: spec_fn(char) -> bool) -> Seq<char> {
    trim_end_by(trim_start_by(s, p), p)
}

/// The characters of `s` that satisfy `p`, in order.
pub open spec fn keep_by(s: Seq<char>, p: spec_fn(char) -> bool) -> Seq<char>
    decreases s.len(),
{
    if s.len() == 0 {
        s
    } else if p(s.last()) {
        keep_by(s.drop_last(), p).push(s.last())
    } else {
        keep_by(s.drop_last(), p)
    }
}

/// Unicode white space, the test that `str::trim` applies.
pub open spec fn white_space_test() -> spec_fn(char) -> bool {
    |c: char| unicode_white_space(c)
}

/// White space among ASCII characters: the space and `U+0009`..`U+000D`.
pub open spec fn ascii_white_space_test() -> spec_fn(char) -> bool {
    |c: char| c == ' ' || ('\u{9}' <= c <= '\u{d}')
}

/// A character that may stay in a slug: alphanumeric, `-` or `_`.
pub open spec fn slug_char_test() -> spec_fn(char) -> bool {
    |c: char| unicode_alphanumeric(c) || c == '-' || c == '_'
}

/// An ASCII character that may stay in a slug: a letter, a digit, `-` or `_`.
pub open spec fn ascii_slug_char_test() -> spec_fn(char) -> bool {
    |c: char| ('a' <= c <= 'z' || 'A' <= c <= 'Z' || '0' <= c <= '9') || c == '-' || c == '_'
}

/// Every ASCII character of `s` is a letter, a digit, `-` or `_`: in particular `s` holds
/// no ASCII white space.
pub open spec fn ascii_chars_are_slug_chars(s: Seq<char>) -> bool {
    forall|i: int|
        0 <= i < s.len() && is_ascii_char(#[trigger] s[i]) ==> ('a' <= s[i] <= 'z' || 'A' <= s[i] <= 'Z'
            || '0' <= s[i] <= '9' || s[i] == '-' || s[i] == '_')
}

/// Every space of `s` turned into a hyphen.
pub open spec fn spaces_to_hyphens(s: Seq<char>) -> Seq<char> {
    s.map_values(|c: char| if c == ' ' { '-' } else { c })
}

/// `s` without leading or trailing hyphens.
pub open spec fn trim_hyphens(s: Seq<char>) -> Seq<char> {
    trim_end_char(trim_start_char(s, '-'), '-')
}

/// The steps of slug normalisation after lowercasing, for the given white-space and
/// kept-character tests.
pub open spec fn normalize_lowered(
    lowered: Seq<char>,
    white: spec_fn(char) -> bool,
    keep: spec_fn(char) -> bool,
) -> Seq<char> {
    keep_by(trim_hyphens(spaces_to_hyphens(trim_by(lowered, white))), keep)
}

/// The canonical form of a requested slug: lowercased, trimmed of white space, spaces
/// turned into hyphens, trimmed of hyphens, and stripped of every character that is not
/// alphanumeric, `-` or `_`.
pub open spec fn spec_normalize_slug(s: Seq<char>) -> Seq<char> {
    normalize_lowered(unicode_lowercase(s), white_space_test(), slug_char_test())
}

/// The canonical form of an ASCII slug: the same steps with the ASCII case mapping and
/// character classes.
pub open spec fn ascii_normalize_slug(s: Seq<char>) -> Seq<char> {
    normalize_lowered(ascii_lowercase(s), ascii_white_space_test(), ascii_slug_char_test())
}

/// `s` without leading or trailing white space.
fn trim_white_space_text(s: &[char]) -> (r: Vec<char>)
    ensures
        r@ == trim_by(s@, white_space_test()),
        all_ascii(s@) ==> r@ == trim_by(s@, ascii_white_space_test()),
{
    let ghost u = white_space_test();
    let ghost w = ascii_white_space_test();
    let n = s.len();
    let mut a: usize = 0;
    assert(s@.subrange(0, n as int) =~= s@);
    while a < n && char_is_whitespace(s[a])
        invariant
            u == white_space_test(),
            w == ascii_white_space_test(),
            n == s@.len(),
            a <= n,
            trim_start_by(s@.subrange(a as int, n as int), u) == trim_start_by(s@, u),
            all_ascii(s@) ==> trim_start_by(s@.subrange(a as int, n as int), w) == trim_start_by(
                s@,
                w,
            ),
        decreases n - a,
    {
        proof {
            assert(s@.subrange(a as int, n as int).drop_first() =~= s@.subrange(a + 1, n as int));
            assert(s@.subrange(a as int, n as int)[0] == s@[a as int]);
            assert(u(s@[a as int]));
            if all_ascii(s@) {
                assert(is_ascii_char(s@[a as int]));
                assert(w(s@[a as int]));
            }
        }
        a = a + 1;
    }
    proof {
        if a < n {
            assert(s@.subrange(a as int, n as int)[0] == s@[a as int]);
            assert(!u(s@[a as int]));
            if all_ascii(s@) {
                assert(is_ascii_char(s@[a as int]));
                assert(!w(s@[a as int]));
            }
        }
    }
    let mut b: usize = n;
    while b > a && char_is_whitespace(s[b - 1])
        invariant
            u == white_space_test(),
            w == ascii_white_space_test(),
            n == s@.len(),
            a <= b <= n,
            trim_start_by(s@, u) == s@.subrange(a as int, n as int),
            trim_end_by(s@.subrange(a as int, b as int), u) == trim_by(s@, u),
            all_ascii(s@) ==> trim_start_by(s@, w) == s@.subrange(a as int, n as int),
            all_ascii(s@) ==> trim_end_by(s@.subrange(a as int, b as int), w) == trim_by(s@, w),
        decreases b - a,
    {
        proof {
            assert(s@.subrange(a as int, b as int).drop_last() =~= s@.subrange(a as int, b - 1));
            assert(s@.subrange(a as int, b as int).last() == s@[b - 1]);
            assert(u(s@[b - 1]));
            if all_ascii(s@) {
                assert(is_ascii_char(s@[b - 1]));
                assert(w(s@[b - 1]));
            }
        }
        b = b - 1;
    }
    proof {
        if b > a {
            assert(s@.subrange(a as int, b as int).last() == s@[b - 1]);
            assert(!u(s@[b - 1]));
            if all_ascii(s@) {
                assert(is_ascii_char(s@[b - 1]));
                assert(!w(s@[b - 1]));
            }
        }
    }
    copy_range(s, a, b)
}

/// Every space turned into a hyphen.
fn spaces_to_hyphens_text(s: &[char]) -> (r: Vec<char>)
    ensures
        r@ == spaces_to_hyphens(s@),
{
    let mut out: Vec<char> = Vec::new();
    let mut i: usize = 0;
    while i < s.len()
        invariant
            i <= s@.len(),
            out@ == spaces_to_hyphens(s@.subrange(0, i as int)),
        decreases s@.len() - i,
    {
        let c = s[i];
        if c == ' ' {
            out.push('-');
        } else {
            out.push(c);
        }
        i = i + 1;
        proof {
            assert(out@ =~= spaces_to_hyphens(s@.subrange(0, i as int)));
        }
    }
    proof {
        assert(s@.subrange(0, s@.len() as int) =~= s@);
    }
    out
}

/// The characters that may stay in a slug, in order.
fn keep_slug_chars_text(s: &[char]) -> (r: Vec<char>)
    ensures
        r@ == keep_by(s@, slug_char_test()),
        all_ascii(s@) ==> r@ == keep_by(s@, ascii_slug_char_test()),
        ascii_chars_are_slug_chars(r@),
{
    let ghost u = slug_char_test();
    let ghost w = ascii_slug_char_test();
    let mut out: Vec<char> = Vec::new();
    let mut i: usize = 0;
    while i < s.len()
        invariant
            u == slug_char_test(),
            w == ascii_slug_char_test(),
            i <= s@.len(),
            out@ == keep_by(s@.subrange(0, i as int), u),
            all_ascii(s@) ==> out@ == keep_by(s@.subrange(0, i as int), w),
            ascii_chars_are_slug_chars(out@),
        decreases s@.len() - i,
    {
        let c = s[i];
        proof {
            assert(s@.subrange(0, i + 1).drop_last() =~= s@.subrange(0, i as int));
            assert(s@.subrange(0, i + 1).last() == c);
        }
        let keep = char_is_alphanumeric(c) || c == '-' || c == '_';
        proof {
            assert(keep == u(c));
            if all_ascii(s@) {
                assert(is_ascii_char(s@[i as int]));
                assert(keep == w(c));
            }
        }
        if keep {
            out.push(c);
            proof {
                assert forall|j: int|
                    0 <= j < out@.len() && is_ascii_char(#[trigger] out@[j]) implies ('a' <= out@[j]
                        <= 'z' || 'A' <= out@[j] <= 'Z' || '0' <= out@[j] <= '9' || out@[j] == '-'
                        || out@[j] == '_') by {
                    if j < out@.len() - 1 {
                        assert(out@[j] == out@.drop_last()[j]);
                    }
                }
            }
        }
        i = i + 1;
    }
    proof {
        assert(s@.subrange(0, s@.len() as int) =~= s@);
    }
    out
}

/// The canonical form of a requested slug (see [`spec_normalize_slug`]). Its ASCII
/// characters are letters, digits, `-` and `_`. For ASCII input it is ASCII text over the
/// slug alphabet, and when it neither starts nor ends with a hyphen, normalising it again
/// leaves it as it is.
pub fn normalize_slug(slug: &str) -> (r: String)
    ensures
        r@ == spec_normalize_slug(slug@),
        all_ascii(slug@) ==> r@ == ascii_normalize_slug(slug@),
        ascii_chars_are_slug_chars(r@),
        all_ascii(slug@) ==> all_ascii(r@) && over_slug_alphabet(r@),
        all_ascii(slug@) && (r@.len() > 0 ==> r@[0] != '-' && r@.last() != '-') ==> ascii_normalize_slug(
            r@,
        ) == r@,
{
    let lower = str_to_lowercase(slug);
    let chars = chars_of(lower.as_str());
    let trimmed = trim_white_space_text(chars.as_slice());
    let dashed = spaces_to_hyphens_text(trimmed.as_slice());
    let inner = trim_end_text(trim_start_text(dashed.as_slice(), '-').as_slice(), '-');
    proof {
        if all_ascii(slug@) {
            lemma_ascii_lowercase_is_ascii(slug@);
            lemma_trim_by_is_ascii(chars@, ascii_white_space_test());
            assert(all_ascii(dashed@));
            assert(all_ascii(inner@)) by {
                lemma_trim_hyphens_is_ascii(dashed@);
            }
        }
    }
    let kept = keep_slug_chars_text(inner.as_slice());
    proof {
        if all_ascii(slug@) {
            lemma_ascii_normalize_over_alphabet(slug@);
            let t = ascii_normalize_slug(slug@);
            if t.len() > 0 ==> t[0] != '-' && t.last() != '-' {
                lemma_canonical_slug_is_fixed(t);
            }
        }
    }
    string_from_chars(kept.as_slice())
}

/// ASCII lowercasing keeps text ASCII.
proof fn lemma_ascii_lowercase_is_ascii(s: Seq<char>)
    requires
        all_ascii(s),
    ensures
        all_ascii(ascii_lowercase(s)),
{
    assert forall|i: int| 0 <= i < ascii_lowercase(s).len() implies is_ascii_char(
        #[trigger] ascii_lowercase(s)[i],
    ) by {
        let c = s[i];
        assert(is_ascii_char(c));
        if 'A' <= c <= 'Z' {
            assert(((c as u32) + 32) < 128);
        }
    }
}



/// Trimming keeps ASCII text ASCII.
proof fn lemma_trim_by_is_ascii(s: Seq<char>, p: spec_fn(char) -> bool)
    requires
        all_ascii(s),
    ensures
        all_ascii(trim_by(s, p)),
{
    lemma_trim_by_shape(s, p);
    let (a, b) = choose|a: int, b: int| 0 <= a <= b <= s.len() && trim_by(s, p) == #[trigger] s.subrange(a, b);
    assert forall|i: int| 0 <= i < trim_by(s, p).len() implies is_ascii_char(#[trigger] trim_by(s, p)[i]) by {
        assert(trim_by(s, p)[i] == s[a + i]);
    }
}




/// Trimming hyphens keeps ASCII text ASCII.
proof fn lemma_trim_hyphens_is_ascii(s: Seq<char>)
    requires
        all_ascii(s),
    ensures
        all_ascii(trim_hyphens(s)),
{
    lemma_trim_hyphens_shape(s);
    let (a, b) = choose|a: int, b: int| 0 <= a <= b <= s.len() && trim_hyphens(s) == #[trigger] s.subrange(a, b);
    assert forall|i: int| 0 <= i < trim_hyphens(s).len() implies is_ascii_char(#[trigger] trim_hyphens(s)[i]) by {
        assert(trim_hyphens(s)[i] == s[a + i]);
    }
}

/// The form submitted to create or replace a paste.
pub struct PastaForm {
    /// The text to store.
    pub content: String,
    /// The lifetime choice: `1hour`, `24hour`, `1week`, `1month` or `never`.
    pub expiration: String,
    /// After how many showings the paste is burnt; 0 for no limit.
    pub burn_after: u64,
    /// Present when the paste may be edited.
    pub allow_edit: Option<String>,
}

/// The query of a paste page.
pub struct QueryParams {
    /// `"true"` right after the paste was created: show the share screen.
    pub created: Option<String>,
}

/// The query asks for the share screen.
pub open spec fn wants_share(q: QueryParams) -> bool {
    match q.created {
        Some(c) => c@ == "true"@,
        None => false,
    }
}

/// Whether the query asks for the share screen.
pub fn query_wants_share(q: &QueryParams) -> (r: bool)
    ensures
        r == wants_share(*q),
{
    match &q.created {
        Some(c) => text_equals(c.as_str(), "true"),
        None => false,
    }
}

/// The largest content accepted, in bytes (1 MiB).
pub const MAX_CONTENT_BYTES: usize = 1024 * 1024;

/// The seconds that each lifetime choice adds to the creation time (`None` for `never`);
/// an unknown choice counts as one week.
pub open spec fn expiration_seconds(expiration: Seq<char>) -> Option<int> {
    if expiration == "1hour"@ {
        Some(3600)
    } else if expiration == "24hour"@ {
        Some(86400)
    } else if expiration == "1week"@ {
        Some(604800)
    } else if expiration == "1month"@ {
        Some(2592000)
    } else if expiration == "never"@ {
        None
    } else {
        Some(604800)
    }
}

/// At `now` the lifetime choice `expiration` ends within chrono's range (a choice that
/// adds no time always does).
pub open spec fn lifetime_fits(expiration: Seq<char>, now: Timestamp) -> bool {
    &&& now.wf()
    &&& match expiration_seconds(expiration) {
        Some(d) => now.secs + d <= MAX_TIMESTAMP,
        None => true,
    }
}

/// The seconds that the lifetime choice `expiration` adds (see [`expiration_seconds`]).
fn lifetime_seconds(expiration: &str) -> (r: Option<i64>)
    ensures
        match r {
            Some(d) => expiration_seconds(expiration@) == Some(d as int),
            None => expiration_seconds(expiration@) is None,
        },
{
    if text_equals(expiration, "1hour") {
        Some(3600)
    } else if text_equals(expiration, "24hour") {
        Some(86400)
    } else if text_equals(expiration, "1week") {
        Some(604800)
    } else if text_equals(expiration, "1month") {
        Some(2592000)
    } else if text_equals(expiration, "never") {
        None
    } else {
        Some(604800)
    }
}

/// Whether at `now` the lifetime choice `expiration` ends within chrono's range (see
/// [`lifetime_fits`]).
pub fn lifetime_fits_at(expiration: &str, now: Timestamp) -> (r: bool)
    requires
        now.wf(),
    ensures
        r == lifetime_fits(expiration@, now),
{
    match lifetime_seconds(expiration) {
        Some(d) => now.secs <= MAX_TIMESTAMP - d,
        None => true,
    }
}

/// The expiry for a lifetime choice made at `now`.
pub open spec fn spec_expiration_to_timestamp(expiration: Seq<char>, now: Timestamp) -> Option<
    Timestamp,
> {
    match expiration_seconds(expiration) {
        Some(d) => Some(now.plus_seconds(d)),
        None => None,
    }
}

/// The expiry for the lifetime choice `expiration` made at `now`.
pub fn expiration_to_timestamp(expiration: &str, now: Timestamp) -> (r: Option<Timestamp>)
    requires
        lifetime_fits(expiration@, now),
    ensures
        r == spec_expiration_to_timestamp(expiration@, now),
        r matches Some(t) ==> t.wf(),
{
    match lifetime_seconds(expiration) {
        Some(d) => Some(datetime_plus_seconds(now, d)),
        None => None,
    }
}

/// The base of share links: the public path (`http://localhost:8080` when none is set,
/// with `https://` put in front when it names no scheme), without trailing slashes.
pub open spec fn share_base(public_path: Seq<char>) -> Seq<char> {
    let base = if public_path.len() == 0 {
        "http://localhost:8080"@
    } else if !contains_piece(public_path, "://"@) {
        "https://"@ + public_path
    } else {
        public_path
    };
    trim_end_char(base, '/')
}

/// The share link of `slug`.
pub open spec fn spec_share_url(public_path: Seq<char>, slug: Seq<char>) -> Seq<char> {
    share_base(public_path) + "/"@ + slug
}

/// The share link of `slug` for the public path `public_path` (see [`spec_share_url`]).
pub fn share_url(public_path: &str, slug: &str) -> (r: String)
    ensures
        r@ == spec_share_url(public_path@, slug@),
{
    let path = chars_of(public_path);
    let base: Vec<char> = if path.len() == 0 {
        chars_of("http://localhost:8080")
    } else if !contains_text(path.as_slice(), chars_of("://").as_slice()) {
        let mut b = chars_of("https://");
        let mut rest = chars_of(public_path);
        b.append(&mut rest);
        b
    } else {
        path
    };
    let mut out = trim_end_text(base.as_slice(), '/');
    let mut sep = chars_of("/");
    let mut tail = chars_of(slug);
    out.append(&mut sep);
    out.append(&mut tail);
    string_from_chars(out.as_slice())
}

/// The page that a visit of a slug leads to.
pub enum SlugPage {
    /// The slug is not in its canonical form: go to the canonical URL.
    Redirect { location: String },
    /// The canonical slug does not have the shape of a slug.
    InvalidFormat,
    /// The share screen of a stored paste: its link and the link's QR code.
    Share { slug: String, full_url: String, qr_svg: String },
    /// The paste expired or reached its burn limit; it has been deleted.
    Expired,
    /// The paste may be edited: the editor, filled with its content.
    Edit { slug: String, content: String },
    /// The paste, as recorded after this showing.
    View { slug: String, pasta: Pasta, can_edit: bool },
    /// No paste is stored under the slug: the form to create one.
    Create { slug: String },
}

/// A [`SlugPage`] with its texts as character sequences.
pub enum SlugPageView {
    Redirect { location: Seq<char> },
    InvalidFormat,
    Share { slug: Seq<char>, full_url: Seq<char>, qr_svg: Seq<char> },
    Expired,
    Edit { slug: Seq<char>, content: Seq<char> },
    View { slug: Seq<char>, pasta: PastaView, can_edit: bool },
    Create { slug: Seq<char> },
}

impl View for SlugPage {
    type V = SlugPageView;

    open spec fn view(&self) -> SlugPageView {
        match self {
            SlugPage::Redirect { location } => SlugPageView::Redirect { location: location@ },
            SlugPage::InvalidFormat => SlugPageView::InvalidFormat,
            SlugPage::Share { slug, full_url, qr_svg } => SlugPageView::Share {
                slug: slug@,
                full_url: full_url@,
                qr_svg: qr_svg@,
            },
            SlugPage::Expired => SlugPageView::Expired,
            SlugPage::Edit { slug, content } => SlugPageView::Edit {
                slug: slug@,
                content: content@,
            },
            SlugPage::View { slug, pasta, can_edit } => SlugPageView::View {
                slug: slug@,
                pasta: pasta@,
                can_edit: *can_edit,
            },
            SlugPage::Create { slug } => SlugPageView::Create { slug: slug@ },
        }
    }
}

/// The paste after being shown at `now`: one more showing, last shown at `now`.
pub open spec fn shown_at(p: PastaView, now: Timestamp) -> PastaView {
    PastaView { read_count: (p.read_count + 1) as u64, last_read: now, ..p }
}

/// A paste that has just been shown stays stored unless that showing reached its burn limit.
pub open spec fn stays_after_showing(p: PastaView) -> bool {
    p.burn_after_reads == 0 || p.read_count < p.burn_after_reads
}

/// The visit of `raw` would show the share screen of a stored paste.
pub open spec fn visit_shows_share(
    m: Map<Seq<char>, PastaView>,
    raw: Seq<char>,
    q: QueryParams,
) -> bool {
    let slug = spec_normalize_slug(raw);
    raw == slug && slug_format_ok(slug) && wants_share(q) && m.contains_key(slug)
}

/// What a visit of the slug `raw` at `now` shows, and the store after it.
///
/// A slug that is not canonical is redirected to its canonical form, and one of the wrong
/// shape is refused; neither touches the store. With the share query, a stored paste gets
/// its share screen and is left as it is. Otherwise an expired or burnt paste is deleted,
/// an editable one opens in the editor and is left as it is, and any other is shown,
/// counted as one more showing at `now`, and kept unless that showing reached its burn
/// limit. A slug with no paste leads to the creation form.
pub open spec fn get_slug_model(
    m: Map<Seq<char>, PastaView>,
    raw: Seq<char>,
    q: QueryParams,
    now: Timestamp,
    public_path: Seq<char>,
) -> (SlugPageView, Map<Seq<char>, PastaView>) {
    let slug = spec_normalize_slug(raw);
    if raw != slug {
        (SlugPageView::Redirect { location: "/"@ + slug }, m)
    } else if !slug_format_ok(slug) {
        (SlugPageView::InvalidFormat, m)
    } else if wants_share(q) && m.contains_key(slug) {
        let full_url = spec_share_url(public_path, slug);
        (
            SlugPageView::Share { slug, full_url, qr_svg: spec_string_to_qr_svg(full_url) },
            m,
        )
    } else if m.contains_key(slug) {
        let p = m[slug];
        if p.is_expired_at(now) || p.burn_limit_reached() {
            (SlugPageView::Expired, m.remove(slug))
        } else if p.allow_edit {
            (SlugPageView::Edit { slug, content: p.content }, m)
        } else {
            let shown = shown_at(p, now);
            (
                SlugPageView::View { slug, pasta: shown, can_edit: shown.allow_edit },
                if stays_after_showing(shown) {
                    m.insert(slug, shown)
                } else {
                    m.remove(slug)
                },
            )
        }
    } else {
        (SlugPageView::Create { slug }, m)
    }
}

/// The visit of `raw` gets past the redirect, the shape check and the share screen to a
/// stored paste that is neither burnt nor editable: unless it has expired, it is shown
/// and counted.
pub open spec fn visit_reaches_showing(m: Map<Seq<char>, PastaView>, raw: Seq<char>, q: QueryParams) -> bool {
    let slug = spec_normalize_slug(raw);
    &&& raw == slug
    &&& slug_format_ok(slug)
    &&& !wants_share(q)
    &&& m.contains_key(slug)
    &&& !m[slug].burn_limit_reached()
    &&& !m[slug].allow_edit
}

/// The visit of `raw` at `now` shows a stored paste and counts one more showing.
pub open spec fn visit_counts_at(
    m: Map<Seq<char>, PastaView>,
    raw: Seq<char>,
    q: QueryParams,
    now: Timestamp,
) -> bool {
    visit_reaches_showing(m, raw, q) && !m[spec_normalize_slug(raw)].is_expired_at(now)
}

/// The conditions under which a visit at `now` does its work without a failure: a paste
/// that is counted has room in its showing count, and a share link that is longer than
/// the QR input limit can be cut there.
pub open spec fn get_slug_ok_at(
    m: Map<Seq<char>, PastaView>,
    raw: Seq<char>,
    q: QueryParams,
    now: Timestamp,
    public_path: Seq<char>,
) -> bool {
    let slug = spec_normalize_slug(raw);
    &&& visit_counts_at(m, raw, q, now) ==> m[slug].read_count < u64::MAX
    &&& visit_shows_share(m, raw, q) ==> qr_input_can_be_cut(spec_share_url(public_path, slug))
}

/// The conditions under which a visit does its work without a failure whatever the time:
/// as [`get_slug_ok_at`], with a paste that has an expiry treated as shown, since the
/// time decides whether it has expired.
pub open spec fn get_slug_ok(
    m: Map<Seq<char>, PastaView>,
    raw: Seq<char>,
    q: QueryParams,
    public_path: Seq<char>,
) -> bool {
    let slug = spec_normalize_slug(raw);
    &&& visit_reaches_showing(m, raw, q) ==> m[slug].read_count < u64::MAX
    &&& visit_shows_share(m, raw, q) ==> qr_input_can_be_cut(spec_share_url(public_path, slug))
}

/// A visit of the slug `raw_slug` at `now` (see [`get_slug_model`]).
pub fn get_slug_at(
    store: &mut PastaStore,
    raw_slug: &str,
    query: &QueryParams,
    now: Timestamp,
    public_path: &str,
) -> (r: SlugPage)
    requires
        now.wf(),
        get_slug_ok_at(old(store)@, raw_slug@, *query, now, public_path@),
    ensures
        (r@, final(store)@) == get_slug_model(old(store)@, raw_slug@, *query, now, public_path@),
{
    let slug = normalize_slug(raw_slug);
    if !text_equals(raw_slug, slug.as_str()) {
        let location = concat_strs("/", slug.as_str());
        return SlugPage::Redirect { location };
    }
    if !is_slug_format_ok(slug.as_str()) {
        return SlugPage::InvalidFormat;
    }
    if query_wants_share(query) && store.contains(slug.as_str()) {
        let full_url = share_url(public_path, slug.as_str());
        let qr_svg = string_to_qr_svg(full_url.as_str());
        return SlugPage::Share { slug, full_url, qr_svg };
    }
    match store.remove(slug.as_str()) {
        Some(pasta) => {
            if pasta.is_expired_at(&now) || pasta.burn_limit_reached() {
                return SlugPage::Expired;
            }
            if pasta.allow_edit {
                let content = pasta.content.clone();
                store.insert(pasta);
                proof {
                    assert(store@ =~= old(store)@);
                }
                return SlugPage::Edit { slug, content };
            }
            let mut shown = pasta;
            shown.read_count = shown.read_count + 1;
            shown.last_read = now;
            let can_edit = shown.allow_edit;
            let page_copy = shown.duplicate();
            if shown.burn_after_reads == 0 || shown.read_count < shown.burn_after_reads {
                store.insert(shown);
                proof {
                    assert(store@ =~= old(store)@.insert(slug@, shown_at(old(store)@[slug@], now)));
                }
            }
            SlugPage::View { slug, pasta: page_copy, can_edit }
        },
        None => SlugPage::Create { slug },
    }
}

/// A visit of the slug `raw_slug` at the current time (see [`get_slug_model`]). Whether a
/// paste with an expiry is counted depends on the time, so such a paste with a full showing
/// count is left out here; [`try_get_slug`] reads the clock first and decides exactly.
pub fn get_slug(store: &mut PastaStore, raw_slug: &str, query: &QueryParams, public_path: &str) -> (r:
    SlugPage)
    requires
        get_slug_ok(old(store)@, raw_slug@, *query, public_path@),
    ensures
        exists|now: Timestamp|
            now.wf() && (r@, final(store)@) == get_slug_model(
                old(store)@,
                raw_slug@,
                *query,
                now,
                public_path@,
            ),
{
    let now = utc_now();
    get_slug_at(store, raw_slug, query, now, public_path)
}

/// Whether a visit of `raw_slug` can do its work without a failure: at the time `now`
/// when there is one (see [`get_slug_ok_at`]), otherwise whatever the time (see
/// [`get_slug_ok`]).
fn visit_guard(
    store: &PastaStore,
    raw_slug: &str,
    query: &QueryParams,
    now: Option<Timestamp>,
    public_path: &str,
) -> (r: bool)
    ensures
        match now {
            Some(t) => r == get_slug_ok_at(store@, raw_slug@, *query, t, public_path@),
            None => r == get_slug_ok(store@, raw_slug@, *query, public_path@),
        },
{
    let slug = normalize_slug(raw_slug);
    let checked = text_equals(raw_slug, slug.as_str()) && is_slug_format_ok(slug.as_str());
    let count_can_grow = if checked && !query_wants_share(query) {
        match store.get(slug.as_str()) {
            Some(p) => {
                let expired = match &now {
                    Some(t) => p.is_expired_at(t),
                    None => false,
                };
                p.burn_limit_reached() || p.allow_edit || expired || p.read_count < u64::MAX
            },
            None => true,
        }
    } else {
        true
    };
    let shows_share = checked && query_wants_share(query) && store.contains(slug.as_str());
    let link_can_be_cut = !shows_share || qr_input_fits(share_url(public_path, slug.as_str()).as_str());
    count_can_grow && link_can_be_cut
}

/// Whether a visit of `raw_slug` can do its work without a failure whatever the time (see
/// [`get_slug_ok`]).
pub fn visit_is_safe(store: &PastaStore, raw_slug: &str, query: &QueryParams, public_path: &str) -> (r:
    bool)
    ensures
        r == get_slug_ok(store@, raw_slug@, *query, public_path@),
{
    visit_guard(store, raw_slug, query, None, public_path)
}

/// Whether a visit of `raw_slug` at `now` can do its work without a failure (see
/// [`get_slug_ok_at`]).
pub fn visit_is_safe_at(
    store: &PastaStore,
    raw_slug: &str,
    query: &QueryParams,
    now: Timestamp,
    public_path: &str,
) -> (r: bool)
    ensures
        r == get_slug_ok_at(store@, raw_slug@, *query, now, public_path@),
{
    visit_guard(store, raw_slug, query, Some(now), public_path)
}

/// A visit of the slug `raw_slug` at the current time when it can be done without a
/// failure (see [`get_slug_ok_at`]); `None`, with the store left as it was, when at the
/// time the clock reads the visited paste would be counted with a full showing count, or
/// its share link cannot be cut for the QR code.
pub fn try_get_slug(store: &mut PastaStore, raw_slug: &str, query: &QueryParams, public_path: &str) -> (r:
    Option<SlugPage>)
    ensures
        exists|now: Timestamp|
            now.wf() && if get_slug_ok_at(old(store)@, raw_slug@, *query, now, public_path@) {
                r matches Some(page) && (page@, final(store)@) == get_slug_model(
                    old(store)@,
                    raw_slug@,
                    *query,
                    now,
                    public_path@,
                )
            } else {
                r is None && final(store)@ == old(store)@
            },
        get_slug_ok(old(store)@, raw_slug@, *query, public_path@) ==> r is Some,
{
    let now = utc_now();
    if visit_is_safe_at(store, raw_slug, query, now, public_path) {
        Some(get_slug_at(store, raw_slug, query, now, public_path))
    } else {
        None
    }
}

/// The answer to a submitted paste form.
pub enum PostOutcome {
    /// The slug is reserved for the service's own routes.
    Reserved,
    /// The canonical slug does not have the shape of a slug.
    InvalidFormat,
    /// The content is longer than [`MAX_CONTENT_BYTES`].
    TooLarge,
    /// A paste that may not be edited is stored under the slug.
    ReadOnly,
    /// The paste was stored: go to its share screen.
    Created { location: String },
    /// The clock reads a time so late that the paste's expiry would leave chrono's range;
    /// nothing was stored.
    ClockOutOfRange,
}

/// A [`PostOutcome`] with its texts as character sequences.
pub enum PostOutcomeView {
    Reserved,
    InvalidFormat,
    TooLarge,
    ReadOnly,
    Created { location: Seq<char> },
    ClockOutOfRange,
}

impl View for PostOutcome {
    type V = PostOutcomeView;

    open spec fn view(&self) -> PostOutcomeView {
        match self {
            PostOutcome::Reserved => PostOutcomeView::Reserved,
            PostOutcome::InvalidFormat => PostOutcomeView::InvalidFormat,
            PostOutcome::TooLarge => PostOutcomeView::TooLarge,
            PostOutcome::ReadOnly => PostOutcomeView::ReadOnly,
            PostOutcome::Created { location } => PostOutcomeView::Created { location: location@ },
            PostOutcome::ClockOutOfRange => PostOutcomeView::ClockOutOfRange,
        }
    }
}

/// The paste that the form creates under `slug` at `now`.
pub open spec fn new_pasta(slug: Seq<char>, form: PastaForm, now: Timestamp) -> PastaView {
    PastaView {
        slug,
        content: form.content@,
        allow_edit: form.allow_edit is Some,
        created: now,
        expiration: spec_expiration_to_timestamp(form.expiration@, now),
        last_read: now,
        read_count: 0,
        burn_after_reads: form.burn_after,
    }
}

/// What submitting `form` for the slug `raw` at `now` answers, and the store after it.
///
/// The slug is normalised first. A reserved slug, a slug of the wrong shape, content over
/// [`MAX_CONTENT_BYTES`] bytes, or a stored paste that may not be edited refuse the form
/// and leave the store as it is; otherwise the new paste replaces whatever was stored
/// under the slug and the answer leads to its share screen.
pub open spec fn post_slug_model(
    m: Map<Seq<char>, PastaView>,
    raw: Seq<char>,
    form: PastaForm,
    now: Timestamp,
) -> (PostOutcomeView, Map<Seq<char>, PastaView>) {
    let slug = spec_normalize_slug(raw);
    if is_reserved_slug(slug) {
        (PostOutcomeView::Reserved, m)
    } else if !slug_format_ok(slug) {
        (PostOutcomeView::InvalidFormat, m)
    } else if encode_utf8(form.content@).len() > MAX_CONTENT_BYTES {
        (PostOutcomeView::TooLarge, m)
    } else if m.contains_key(slug) && !m[slug].allow_edit {
        (PostOutcomeView::ReadOnly, m)
    } else {
        (
            PostOutcomeView::Created { location: "/"@ + slug + "?created=true"@ },
            m.insert(slug, new_pasta(slug, form, now)),
        )
    }
}

/// The submission passes every check and stores a new paste: the canonical slug is not
/// reserved and has the shape of a slug, the content is within [`MAX_CONTENT_BYTES`],
/// and no paste that may not be edited is stored under the slug.
pub open spec fn post_accepts(m: Map<Seq<char>, PastaView>, raw: Seq<char>, form: PastaForm) -> bool {
    let slug = spec_normalize_slug(raw);
    &&& !is_reserved_slug(slug)
    &&& slug_format_ok(slug)
    &&& encode_utf8(form.content@).len() <= MAX_CONTENT_BYTES
    &&& !(m.contains_key(slug) && !m[slug].allow_edit)
}

/// A submission at `now` can do its work: the new paste it stores, if any, expires within
/// chrono's range.
pub open spec fn post_slug_ok(
    m: Map<Seq<char>, PastaView>,
    raw: Seq<char>,
    form: PastaForm,
    now: Timestamp,
) -> bool {
    &&& now.wf()
    &&& post_accepts(m, raw, form) ==> lifetime_fits(form.expiration@, now)
}

/// Whether the submission passes every check (see [`post_accepts`]).
pub fn submission_is_accepted(store: &PastaStore, raw_slug: &str, form: &PastaForm) -> (r: bool)
    ensures
        r == post_accepts(store@, raw_slug@, *form),
{
    let slug = normalize_slug(raw_slug);
    if is_reserved(slug.as_str()) || !is_slug_format_ok(slug.as_str()) {
        return false;
    }
    if form.content.as_str().as_bytes().len() > MAX_CONTENT_BYTES {
        return false;
    }
    match store.get(slug.as_str()) {
        Some(existing) => existing.allow_edit,
        None => true,
    }
}

/// Submitting `form` for the slug `raw_slug` at `now` (see [`post_slug_model`]).
pub fn post_slug_at(store: &mut PastaStore, raw_slug: &str, form: &PastaForm, now: Timestamp) -> (r:
    PostOutcome)
    requires
        post_slug_ok(old(store)@, raw_slug@, *form, now),
    ensures
        (r@, final(store)@) == post_slug_model(old(store)@, raw_slug@, *form, now),
{
    let slug = normalize_slug(raw_slug);
    if is_reserved(slug.as_str()) {
        return PostOutcome::Reserved;
    }
    if !is_slug_format_ok(slug.as_str()) {
        return PostOutcome::InvalidFormat;
    }
    if form.content.as_str().as_bytes().len() > MAX_CONTENT_BYTES {
        return PostOutcome::TooLarge;
    }
    match store.get(slug.as_str()) {
        Some(existing) => {
            if !existing.allow_edit {
                return PostOutcome::ReadOnly;
            }
        },
        None => {},
    }
    let pasta = Pasta {
        slug: slug.clone(),
        content: form.content.clone(),
        allow_edit: form.allow_edit.is_some(),
        created: now,
        expiration: expiration_to_timestamp(form.expiration.as_str(), now),
        last_read: now,
        read_count: 0,
        burn_after_reads: form.burn_after,
    };
    store.insert(pasta);
    let with_slash = concat_strs("/", slug.as_str());
    let location = concat_strs(with_slash.as_str(), "?created=true");
    PostOutcome::Created { location }
}

/// Submitting `form` for the slug `raw_slug` at the current time (see
/// [`post_slug_model`]). Refusals do not depend on the clock. When the form would store a
/// paste whose lifetime ends beyond chrono's range at the time the clock reads, nothing is
/// stored and the answer is [`PostOutcome::ClockOutOfRange`].
pub fn post_slug(store: &mut PastaStore, raw_slug: &str, form: &PastaForm) -> (r: PostOutcome)
    ensures
        exists|now: Timestamp|
            now.wf() && if post_slug_ok(old(store)@, raw_slug@, *form, now) {
                (r@, final(store)@) == post_slug_model(old(store)@, raw_slug@, *form, now)
            } else {
                r@ == PostOutcomeView::ClockOutOfRange && final(store)@ == old(store)@
            },
        is_reserved_slug(spec_normalize_slug(raw_slug@)) ==> r@ == PostOutcomeView::Reserved
            && final(store)@ == old(store)@,
        !is_reserved_slug(spec_normalize_slug(raw_slug@)) && !slug_format_ok(
            spec_normalize_slug(raw_slug@),
        ) ==> r@ == PostOutcomeView::InvalidFormat && final(store)@ == old(store)@,
        !is_reserved_slug(spec_normalize_slug(raw_slug@)) && slug_format_ok(
            spec_normalize_slug(raw_slug@),
        ) && encode_utf8(form.content@).len() > MAX_CONTENT_BYTES ==> r@ == PostOutcomeView::TooLarge
            && final(store)@ == old(store)@,
        !is_reserved_slug(spec_normalize_slug(raw_slug@)) && slug_format_ok(
            spec_normalize_slug(raw_slug@),
        ) && encode_utf8(form.content@).len() <= MAX_CONTENT_BYTES && old(store)@.contains_key(
            spec_normalize_slug(raw_slug@),
        ) && !old(store)@[spec_normalize_slug(raw_slug@)].allow_edit ==> r@ == PostOutcomeView::ReadOnly
            && final(store)@ == old(store)@,
        r@ == PostOutcomeView::ClockOutOfRange ==> post_accepts(old(store)@, raw_slug@, *form)
            && expiration_seconds(form.expiration@) is Some && final(store)@ == old(store)@,
        post_accepts(old(store)@, raw_slug@, *form) ==> r@ is Created || r@
            == PostOutcomeView::ClockOutOfRange,
{
    let now = utc_now();
    if submission_is_accepted(store, raw_slug, form) && !lifetime_fits_at(form.expiration.as_str(), now) {
        return PostOutcome::ClockOutOfRange;
    }
    post_slug_at(store, raw_slug, form, now)
}

/// The content stored under the canonical form of `raw`, if any.
pub open spec fn get_raw_model(m: Map<Seq<char>, PastaView>, raw: Seq<char>) -> Option<Seq<char>> {
    let slug = spec_normalize_slug(raw);
    if m.contains_key(slug) {
        Some(m[slug].content)
    } else {
        None
    }
}

/// The raw content stored under the canonical form of `raw_slug`; the paste is not
/// counted as shown and is returned whether or not it has expired.
pub fn get_raw(store: &PastaStore, raw_slug: &str) -> (r: Option<String>)
    ensures
        match r {
            Some(c) => get_raw_model(store@, raw_slug@) == Some(c@),
            None => get_raw_model(store@, raw_slug@) is None,
        },
{
    let slug = normalize_slug(raw_slug);
    match store.get(slug.as_str()) {
        Some(pasta) => Some(pasta.content.clone()),
        None => None,
    }
}

} // verus!
