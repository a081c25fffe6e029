//! Expiry sweeping, QR code rendering and URL detection.
use vstd::prelude::*;
use vstd::string::StringSliceAdditionalSpecFns;
use vstd::utf8::{decode_utf8, encode_utf8, is_char_boundary};
use crate::clock::{utc_now, Timestamp};
use crate::store::{fresh_at, PastaStore};
use crate::text::{chars_of, contains_piece, contains_text, replace_all, replace_text, string_from_chars};

verus! {

/// Removes, as of `now`, every paste that has expired, reached its burn limit, or (when
/// `gc_days` is not zero) not been shown for `gc_days` whole days.
pub fn remove_expired_at(pastas: &mut PastaStore, now: Timestamp, gc_days: u16)
    requires
        now.wf(),
    ensures
        final(pastas)@ == fresh_at(old(pastas)@, now, gc_days),
{
    pastas.retain_fresh(now, gc_days);
}

/// Removes, as of the current time, every paste that is due for removal (see
/// [`remove_expired_at`]).
pub fn remove_expired(pastas: &mut PastaStore, gc_days: u16)
    ensures
        exists|now: Timestamp| now.wf() && final(pastas)@ == fresh_at(old(pastas)@, now, gc_days),
{
    let now = utc_now();
    remove_expired_at(pastas, now, gc_days);
}

/// The first span that `linkify::LinkFinder::new().spans(text)` yields for `text`: the
/// span's text, and whether linkify classified it as a URL (`LinkKind::Url`). `None` when
/// the iterator yields nothing.
pub uninterp spec fn linkify_first_span(text: Seq<char>) -> Option<(Seq<char>, bool)>;

/// The first span of `linkify::LinkFinder::new().spans(text)`, as its text and whether
/// its kind is `LinkKind::Url`; the result is named by `linkify_first_span`.
#[verifier::external_body]
fn first_link_span(text: &str) -> (r: Option<(String, bool)>)
    ensures
        match r {
            Some((span, is_url)) => linkify_first_span(text@) == Some((span@, is_url)),
            None => linkify_first_span(text@) is None,
        },
{
    let finder = linkify::LinkFinder::new();
    match finder.spans(text).next() {
        Some(span) => Some(
            (span.as_str().to_string(), matches!(span.kind(), Some(linkify::LinkKind::Url))),
        ),
        None => None,
    }
}

/// The whole text is a single URL as linkify finds them: the first span linkify yields
/// covers the entire text and is a URL.
pub open spec fn spec_is_valid_url(url: Seq<char>) -> bool {
    match linkify_first_span(url) {
        Some((span, is_url)) => span == url && is_url,
        None => false,
    }
}

/// Whether `url` is, as a whole, one URL.
pub fn is_valid_url(url: &str) -> (r: bool)
    ensures
        r == spec_is_valid_url(url@),
{
    match first_link_span(url) {
        Some((span, is_url)) => {
            let a = chars_of(span.as_str());
            let b = chars_of(url);
            crate::text::chars_equal(a.as_slice(), b.as_slice()) && is_url
        },
        None => false,
    }
}

/// The error-correction levels of a QR code, as `qrcode_generator::QrCodeEcc` names them.
#[derive(Clone, Copy, Debug, PartialEq, Eq, Structural)]
pub enum QrEcc {
    Low,
    Medium,
    Quartile,
    High,
}

/// The SVG document that
/// `qrcode_generator::to_svg_to_string(text, ecc, size, None::<&str>)` writes for the bytes
/// of `text`, or `None` when that call fails.
pub uninterp spec fn qr_svg_document(text: Seq<char>, ecc: QrEcc, size: usize) -> Option<Seq<char>>;

/// `qrcode_generator::to_svg_to_string(text, ecc, size, None::<&str>)`, with the error
/// turned into `None`; the result is named by `qr_svg_document`.
#[verifier::external_body]
fn qr_code_svg(text: &str, ecc: QrEcc, size: usize) -> (r: Option<String>)
    ensures
        match r {
            Some(svg) => qr_svg_document(text@, ecc, size) == Some(svg@),
            None => qr_svg_document(text@, ecc, size) is None,
        },
{
    let level = match ecc {
        QrEcc::Low => qrcode_generator::QrCodeEcc::Low,
        QrEcc::Medium => qrcode_generator::QrCodeEcc::Medium,
        QrEcc::Quartile => qrcode_generator::QrCodeEcc::Quartile,
        QrEcc::High => qrcode_generator::QrCodeEcc::High,
    };
    qrcode_generator::to_svg_to_string(text, level, size, None::<&str>).ok()
}

/// The error-correction level of the shown QR codes.
pub const QR_ECC: QrEcc = QrEcc::Low;

/// The size, in pixels, of the shown QR codes.
pub const QR_SIZE: usize = 256;

/// The longest input, in bytes, that is encoded into a QR code.
pub const QR_INPUT_LIMIT: usize = 1024;

/// The text that is encoded into the QR code for `s`: `s` itself, or its first
/// [`QR_INPUT_LIMIT`] bytes when it is longer.
pub open spec fn qr_input(s: Seq<char>) -> Seq<char> {
    if encode_utf8(s).len() > QR_INPUT_LIMIT {
        decode_utf8(encode_utf8(s).subrange(0, QR_INPUT_LIMIT as int))
    } else {
        s
    }
}

/// `s` can be cut after its first [`QR_INPUT_LIMIT`] bytes: it is no longer than that,
/// or that many bytes end on a character boundary.
pub open spec fn qr_input_can_be_cut(s: Seq<char>) -> bool {
    encode_utf8(s).len() > QR_INPUT_LIMIT ==> is_char_boundary(encode_utf8(s), QR_INPUT_LIMIT as int)
}

/// Whether `s` can be cut after its first [`QR_INPUT_LIMIT`] bytes (see
/// [`qr_input_can_be_cut`]).
pub fn qr_input_fits(s: &str) -> (r: bool)
    ensures
        r == qr_input_can_be_cut(s@),
{
    if s.as_bytes().len() > QR_INPUT_LIMIT {
        s.is_char_boundary(QR_INPUT_LIMIT)
    } else {
        true
    }
}

/// The generator's SVG made to scale: a `preserveAspectRatio` attribute added to its
/// `<svg ` tags, and a `viewBox` added when it has none.
pub open spec fn spec_qr_markup(svg: Seq<char>) -> Seq<char> {
    let with_ratio = replace_all(svg, "<svg "@, "<svg preserveAspectRatio=\"xMidYMid meet\" "@);
    if !contains_piece(with_ratio, "viewBox"@) {
        replace_all(with_ratio, "<svg "@, "<svg viewBox=\"0 0 256 256\" "@)
    } else {
        with_ratio
    }
}

/// The SVG markup shown for `s`: the QR code of [`qr_input`] made to scale (see
/// [`spec_qr_markup`]), or a plain fallback block naming `s` when the QR code cannot be
/// made.
pub open spec fn spec_string_to_qr_svg(s: Seq<char>) -> Seq<char> {
    match qr_svg_document(qr_input(s), QR_ECC, QR_SIZE) {
        Some(svg) => spec_qr_markup(svg),
        None => "<div class='qr-fallback'>CODE: "@ + s + "</div>"@,
    }
}

/// The generator's SVG made to scale (see [`spec_qr_markup`]).
pub fn qr_markup(svg: &str) -> (r: String)
    ensures
        r@ == spec_qr_markup(svg@),
{
    proof {
        reveal_strlit("<svg ");
    }
    let tag = chars_of("<svg ");
    let with_ratio = replace_text(
        chars_of(svg).as_slice(),
        tag.as_slice(),
        chars_of("<svg preserveAspectRatio=\"xMidYMid meet\" ").as_slice(),
    );
    if !contains_text(with_ratio.as_slice(), chars_of("viewBox").as_slice()) {
        let with_box = replace_text(
            with_ratio.as_slice(),
            tag.as_slice(),
            chars_of("<svg viewBox=\"0 0 256 256\" ").as_slice(),
        );
        string_from_chars(with_box.as_slice())
    } else {
        string_from_chars(with_ratio.as_slice())
    }
}

/// The QR code of `s` as SVG markup (see [`spec_string_to_qr_svg`]).
pub fn string_to_qr_svg(s: &str) -> (r: String)
    requires
        qr_input_can_be_cut(s@),
    ensures
        r@ == spec_string_to_qr_svg(s@),
{
    let input: &str = if s.as_bytes().len() > QR_INPUT_LIMIT {
        let (head, _) = s.split_at(QR_INPUT_LIMIT);
        proof {
            vstd::utf8::encode_utf8_decode_utf8(head@);
            assert(head.spec_bytes() == encode_utf8(head@));
            assert(s.spec_bytes() == encode_utf8(s@));
            assert(encode_utf8(head@) =~= encode_utf8(s@).subrange(0, QR_INPUT_LIMIT as int));
            assert(head@ == decode_utf8(encode_utf8(s@).subrange(0, QR_INPUT_LIMIT as int)));
            assert(encode_utf8(s@).len() > QR_INPUT_LIMIT);
        }
        head
    } else {
        proof {
            assert(s.spec_bytes() == encode_utf8(s@));
            assert(encode_utf8(s@).len() <= QR_INPUT_LIMIT);
        }
        s
    };
    assert(input@ == qr_input(s@));
    match qr_code_svg(input, QR_ECC, QR_SIZE) {
        Some(svg) => qr_markup(svg.as_str()),
        None => {
            let mut out = chars_of("<div class='qr-fallback'>CODE: ");
            let mut body = chars_of(s);
            let mut tail = chars_of("</div>");
            out.append(&mut body);
            out.append(&mut tail);
            string_from_chars(out.as_slice())
        },
    }
}

} // verus!
