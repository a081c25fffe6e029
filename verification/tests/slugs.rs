use linkdrop::endpoints::core_routes::{
    expiration_to_timestamp, is_reserved, is_slug_format_ok, lifetime_fits_at, normalize_slug, share_url,
};
use linkdrop::clock::{Timestamp, MAX_TIMESTAMP};

#[test]
fn normalize_lowercases_and_hyphenates() {
    assert_eq!(normalize_slug("Hello World"), "hello-world");
}

#[test]
fn normalize_trims_white_space_and_hyphens() {
    assert_eq!(normalize_slug("  \t-My Slug-\n "), "my-slug");
}

#[test]
fn normalize_drops_punctuation() {
    assert_eq!(normalize_slug("my.slug!?"), "myslug");
    assert_eq!(normalize_slug("a_b-c"), "a_b-c");
}

#[test]
fn normalize_keeps_unicode_letters() {
    assert_eq!(normalize_slug("ÜBER Größe"), "über-größe");
}

#[test]
fn normalize_settles_after_two_rounds() {
    let once = normalize_slug("!-a");
    assert_eq!(once, "-a");
    let twice = normalize_slug(&once);
    assert_eq!(twice, "a");
    assert_eq!(normalize_slug(&twice), "a");
}

#[test]
fn slug_format_accepts_three_to_fifty_slug_characters() {
    assert!(is_slug_format_ok("abc"));
    assert!(is_slug_format_ok("a-b_c-0123456789"));
    assert!(is_slug_format_ok(&"x".repeat(50)));
    assert!(!is_slug_format_ok("ab"));
    assert!(!is_slug_format_ok(&"x".repeat(51)));
    assert!(!is_slug_format_ok("ABC"));
    assert!(!is_slug_format_ok("abc\n"));
    assert!(!is_slug_format_ok("über"));
}

#[test]
fn reserved_slugs_are_recognised() {
    for s in ["static", "public", "favicon.ico", "raw", "api", "admin"] {
        assert!(is_reserved(s));
    }
    assert!(!is_reserved("statics"));
    assert!(!is_reserved("my-paste"));
}

#[test]
fn expiration_choices_add_their_durations() {
    let now = Timestamp { secs: 1_700_000_000, nanos: 5 };
    assert_eq!(expiration_to_timestamp("1hour", now), Some(Timestamp { secs: 1_700_003_600, nanos: 5 }));
    assert_eq!(expiration_to_timestamp("24hour", now), Some(Timestamp { secs: 1_700_086_400, nanos: 5 }));
    assert_eq!(expiration_to_timestamp("1week", now), Some(Timestamp { secs: 1_700_604_800, nanos: 5 }));
    assert_eq!(expiration_to_timestamp("1month", now), Some(Timestamp { secs: 1_702_592_000, nanos: 5 }));
    assert_eq!(expiration_to_timestamp("never", now), None);
    assert_eq!(expiration_to_timestamp("whenever", now), Some(Timestamp { secs: 1_700_604_800, nanos: 5 }));
}

#[test]
fn share_url_uses_public_path() {
    assert_eq!(share_url("", "abc"), "http://localhost:8080/abc");
    assert_eq!(share_url("example.com/", "abc"), "https://example.com/abc");
    assert_eq!(share_url("http://example.org//", "abc"), "http://example.org/abc");
}

#[test]
fn never_expires_even_at_the_end_of_time() {
    let late = Timestamp { secs: MAX_TIMESTAMP, nanos: 0 };
    assert!(lifetime_fits_at("never", late));
    assert_eq!(expiration_to_timestamp("never", late), None);
    assert!(!lifetime_fits_at("1hour", late));
    let hour_left = Timestamp { secs: MAX_TIMESTAMP - 3600, nanos: 7 };
    assert!(lifetime_fits_at("1hour", hour_left));
    assert!(!lifetime_fits_at("24hour", hour_left));
    assert!(!lifetime_fits_at("whenever", hour_left));
    assert_eq!(expiration_to_timestamp("1hour", hour_left), Some(Timestamp { secs: MAX_TIMESTAMP, nanos: 7 }));
}

#[test]
fn normalising_again_changes_nothing_without_edge_hyphens() {
    for raw in ["Hello World", "  My_Notes 2  ", "Café Noir", "a!b?c"] {
        let once = normalize_slug(raw);
        assert_eq!(normalize_slug(&once), once);
    }
    // A normal form that starts with a hyphen settles one round later.
    assert_eq!(normalize_slug("!-abc"), "-abc");
    assert_eq!(normalize_slug("-abc"), "abc");
    // No white space survives.
    assert!(!normalize_slug("a\u{3000}b\tc d").chars().any(char::is_whitespace));
}
