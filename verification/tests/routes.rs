use linkdrop::clock::{Timestamp, MAX_TIMESTAMP};
use linkdrop::endpoints::core_routes::{
    get_raw, get_slug_at, post_slug, post_slug_at, submission_is_accepted, visit_is_safe, visit_is_safe_at,
    PastaForm, PostOutcome, QueryParams, SlugPage,
};
use linkdrop::pasta::Pasta;
use linkdrop::store::PastaStore;
use linkdrop::util::misc::remove_expired_at;

fn now() -> Timestamp {
    Timestamp { secs: 1_700_000_000, nanos: 0 }
}

fn form(content: &str, expiration: &str, burn_after: u64, allow_edit: bool) -> PastaForm {
    PastaForm {
        content: content.to_string(),
        expiration: expiration.to_string(),
        burn_after,
        allow_edit: if allow_edit { Some("on".to_string()) } else { None },
    }
}

fn plain() -> QueryParams {
    QueryParams { created: None }
}

fn share() -> QueryParams {
    QueryParams { created: Some("true".to_string()) }
}

#[test]
fn create_then_read_raw() {
    let mut store = PastaStore::new();
    match post_slug_at(&mut store, "My Notes", &form("hello", "1hour", 0, false), now()) {
        PostOutcome::Created { location } => assert_eq!(location, "/my-notes?created=true"),
        _ => panic!("expected Created"),
    }
    assert_eq!(get_raw(&store, "my-notes"), Some("hello".to_string()));
    assert_eq!(get_raw(&store, "MY NOTES"), Some("hello".to_string()));
    assert_eq!(get_raw(&store, "other"), None);
    let p = store.get("my-notes").unwrap();
    assert_eq!(p.expiration, Some(Timestamp { secs: 1_700_003_600, nanos: 0 }));
    assert_eq!(p.read_count, 0);
}

#[test]
fn post_with_clock() {
    let mut store = PastaStore::new();
    match post_slug(&mut store, "clock-test", &form("x", "never", 0, false)) {
        PostOutcome::Created { .. } => {},
        _ => panic!("expected Created"),
    }
    assert!(store.contains("clock-test"));
}

#[test]
fn post_refusals() {
    let mut store = PastaStore::new();
    assert!(matches!(post_slug_at(&mut store, "static", &form("x", "never", 0, false), now()), PostOutcome::Reserved));
    assert!(matches!(post_slug_at(&mut store, "ab", &form("x", "never", 0, false), now()), PostOutcome::InvalidFormat));
    let big = "a".repeat(1024 * 1024 + 1);
    assert!(matches!(post_slug_at(&mut store, "big-one", &form(&big, "never", 0, false), now()), PostOutcome::TooLarge));
    let exact = "a".repeat(1024 * 1024);
    assert!(matches!(post_slug_at(&mut store, "big-two", &form(&exact, "never", 0, false), now()), PostOutcome::Created { .. }));
    assert!(!store.contains("big-one"));
}

#[test]
fn read_only_paste_is_not_replaced() {
    let mut store = PastaStore::new();
    post_slug_at(&mut store, "locked", &form("first", "never", 0, false), now());
    assert!(matches!(post_slug_at(&mut store, "locked", &form("second", "never", 0, false), now()), PostOutcome::ReadOnly));
    assert_eq!(get_raw(&store, "locked"), Some("first".to_string()));
}

#[test]
fn editable_paste_is_replaced() {
    let mut store = PastaStore::new();
    post_slug_at(&mut store, "notes", &form("first", "never", 0, true), now());
    assert!(matches!(post_slug_at(&mut store, "notes", &form("second", "never", 0, false), now()), PostOutcome::Created { .. }));
    assert_eq!(get_raw(&store, "notes"), Some("second".to_string()));
}

#[test]
fn visits_redirect_refuse_and_create() {
    let mut store = PastaStore::new();
    match get_slug_at(&mut store, "Hello World", &plain(), now(), "") {
        SlugPage::Redirect { location } => assert_eq!(location, "/hello-world"),
        _ => panic!("expected Redirect"),
    }
    assert!(matches!(get_slug_at(&mut store, "ab", &plain(), now(), ""), SlugPage::InvalidFormat));
    match get_slug_at(&mut store, "fresh", &plain(), now(), "") {
        SlugPage::Create { slug } => assert_eq!(slug, "fresh"),
        _ => panic!("expected Create"),
    }
    assert!(!store.contains("fresh"));
}

#[test]
fn share_screen_does_not_count_as_view() {
    let mut store = PastaStore::new();
    post_slug_at(&mut store, "shared", &form("content", "never", 1, false), now());
    match get_slug_at(&mut store, "shared", &share(), now(), "links.example") {
        SlugPage::Share { slug, full_url, qr_svg } => {
            assert_eq!(slug, "shared");
            assert_eq!(full_url, "https://links.example/shared");
            assert!(qr_svg.contains("preserveAspectRatio=\"xMidYMid meet\""));
            assert!(qr_svg.contains("viewBox"));
        },
        _ => panic!("expected Share"),
    }
    assert_eq!(store.get("shared").unwrap().read_count, 0);
    // The share query for a missing paste falls through to the creation form.
    assert!(matches!(get_slug_at(&mut store, "missing", &share(), now(), ""), SlugPage::Create { .. }));
}

#[test]
fn burn_after_reading() {
    let mut store = PastaStore::new();
    post_slug_at(&mut store, "burner", &form("secret", "never", 2, false), now());
    let later = Timestamp { secs: now().secs + 5, nanos: 7 };
    match get_slug_at(&mut store, "burner", &plain(), later, "") {
        SlugPage::View { slug, pasta, can_edit } => {
            assert_eq!(slug, "burner");
            assert_eq!(pasta.content, "secret");
            assert_eq!(pasta.read_count, 1);
            assert_eq!(pasta.last_read, later);
            assert!(!can_edit);
        },
        _ => panic!("expected View"),
    }
    assert_eq!(store.get("burner").unwrap().read_count, 1);
    match get_slug_at(&mut store, "burner", &plain(), later, "") {
        SlugPage::View { pasta, .. } => assert_eq!(pasta.read_count, 2),
        _ => panic!("expected View"),
    }
    assert!(!store.contains("burner"));
    assert!(matches!(get_slug_at(&mut store, "burner", &plain(), later, ""), SlugPage::Create { .. }));
}

#[test]
fn unlimited_paste_counts_views() {
    let mut store = PastaStore::new();
    post_slug_at(&mut store, "forever", &form("x", "never", 0, false), now());
    for _ in 0..3 {
        assert!(matches!(get_slug_at(&mut store, "forever", &plain(), now(), ""), SlugPage::View { .. }));
    }
    assert_eq!(store.get("forever").unwrap().read_count, 3);
}

#[test]
fn expired_paste_is_deleted_on_visit() {
    let mut store = PastaStore::new();
    post_slug_at(&mut store, "short", &form("x", "1hour", 0, false), now());
    let at_expiry = Timestamp { secs: now().secs + 3600, nanos: 0 };
    let just_before = Timestamp { secs: now().secs + 3599, nanos: 999_999_999 };
    assert!(matches!(get_slug_at(&mut store, "short", &plain(), just_before, ""), SlugPage::View { .. }));
    assert!(matches!(get_slug_at(&mut store, "short", &plain(), at_expiry, ""), SlugPage::Expired));
    assert!(!store.contains("short"));
}

#[test]
fn editable_paste_opens_editor_without_counting() {
    let mut store = PastaStore::new();
    post_slug_at(&mut store, "draft", &form("text", "never", 1, true), now());
    match get_slug_at(&mut store, "draft", &plain(), now(), "") {
        SlugPage::Edit { slug, content } => {
            assert_eq!(slug, "draft");
            assert_eq!(content, "text");
        },
        _ => panic!("expected Edit"),
    }
    assert_eq!(store.get("draft").unwrap().read_count, 0);
}

#[test]
fn sweep_removes_stale_pastes() {
    let mut store = PastaStore::new();
    post_slug_at(&mut store, "expires", &form("x", "1hour", 0, false), now());
    post_slug_at(&mut store, "stays", &form("x", "never", 0, false), now());
    store.insert(Pasta {
        slug: "burnt".to_string(),
        content: "x".to_string(),
        allow_edit: false,
        created: now(),
        expiration: None,
        last_read: now(),
        read_count: 1,
        burn_after_reads: 1,
    });
    post_slug_at(&mut store, "idle", &form("x", "never", 0, false), Timestamp { secs: now().secs - 10 * 86_400, nanos: 0 });
    get_slug_at(&mut store, "stays", &plain(), now(), "");
    let later = Timestamp { secs: now().secs + 7200, nanos: 0 };
    remove_expired_at(&mut store, later, 0);
    assert!(!store.contains("expires"));
    assert!(store.contains("stays"));
    assert!(store.contains("idle"));
    assert!(!store.contains("burnt"));
    remove_expired_at(&mut store, later, 7);
    assert!(!store.contains("idle"));
    assert!(store.contains("stays"));
    assert_eq!(store.pastas().len(), 1);
}

#[test]
fn loaded_store_keeps_the_last_paste_of_each_slug() {
    let row = |slug: &str, content: &str, secs: i64| Pasta {
        slug: slug.to_string(),
        content: content.to_string(),
        allow_edit: false,
        created: Timestamp { secs, nanos: 0 },
        expiration: None,
        last_read: Timestamp { secs, nanos: 0 },
        read_count: 0,
        burn_after_reads: 0,
    };
    let out_of_range = Timestamp { secs: i64::MAX, nanos: 0 };
    let mut odd = row("odd", "never stored", 0);
    odd.last_read = out_of_range;
    let store = PastaStore::from_pastas(vec![row("a", "first", 1), row("b", "other", 2), row("a", "second", 3), odd]);
    assert_eq!(store.get("a").unwrap().content, "second");
    assert_eq!(store.get("b").unwrap().content, "other");
    assert!(!store.contains("odd"));
    assert_eq!(store.pastas().len(), 2);
    assert!(PastaStore::from_pastas(Vec::new()).pastas().is_empty());
}

fn stored(slug: &str, expiration: Option<Timestamp>, read_count: u64) -> Pasta {
    Pasta {
        slug: slug.to_string(),
        content: "x".to_string(),
        allow_edit: false,
        created: now(),
        expiration,
        last_read: now(),
        read_count,
        burn_after_reads: 0,
    }
}

#[test]
fn never_paste_is_created_at_the_end_of_time() {
    let mut store = PastaStore::new();
    let late = Timestamp { secs: MAX_TIMESTAMP, nanos: 0 };
    assert!(matches!(post_slug_at(&mut store, "late-one", &form("x", "never", 0, false), late), PostOutcome::Created { .. }));
    assert_eq!(store.get("late-one").unwrap().expiration, None);
}

#[test]
fn refusals_come_before_the_clock() {
    let mut store = PastaStore::new();
    post_slug_at(&mut store, "locked", &form("first", "never", 0, false), now());
    assert!(!submission_is_accepted(&store, "api", &form("x", "1hour", 0, false)));
    assert!(!submission_is_accepted(&store, "ab", &form("x", "1hour", 0, false)));
    assert!(!submission_is_accepted(&store, "locked", &form("x", "1hour", 0, false)));
    assert!(submission_is_accepted(&store, "fresh-one", &form("x", "1hour", 0, false)));
    assert!(matches!(post_slug(&mut store, "api", &form("x", "1hour", 0, false)), PostOutcome::Reserved));
    assert!(matches!(post_slug(&mut store, "ab", &form("x", "1hour", 0, false)), PostOutcome::InvalidFormat));
    assert!(matches!(post_slug(&mut store, "locked", &form("y", "1hour", 0, false)), PostOutcome::ReadOnly));
    assert_eq!(store.get("locked").unwrap().content, "first");
}

#[test]
fn full_counter_blocks_only_a_counted_showing() {
    let mut store = PastaStore::new();
    let past = Timestamp { secs: now().secs - 10, nanos: 0 };
    store.insert(stored("worn", Some(past), u64::MAX));
    store.insert(stored("maxed", None, u64::MAX));
    // A redirect or the share screen counts nothing.
    assert!(visit_is_safe(&store, "Worn", &plain(), ""));
    assert!(visit_is_safe(&store, "maxed", &share(), ""));
    // An expired paste is reported gone, however full its counter.
    assert!(visit_is_safe_at(&store, "worn", &plain(), now(), ""));
    assert!(!visit_is_safe(&store, "worn", &plain(), ""));
    assert!(matches!(get_slug_at(&mut store, "worn", &plain(), now(), ""), SlugPage::Expired));
    assert!(!store.contains("worn"));
    // A paste that would be counted with a full counter cannot be shown.
    assert!(!visit_is_safe_at(&store, "maxed", &plain(), now(), ""));
    assert!(!visit_is_safe(&store, "maxed", &plain(), ""));
}
