use linkdrop::clock::Timestamp;
use linkdrop::pasta::{time_ago_string, Pasta, SizeUnit};

fn pasta(content: &str, last_read: Timestamp) -> Pasta {
    Pasta {
        slug: "abc".to_string(),
        content: content.to_string(),
        allow_edit: false,
        created: last_read,
        expiration: None,
        last_read,
        read_count: 0,
        burn_after_reads: 0,
    }
}

#[test]
fn time_ago_texts() {
    assert_eq!(time_ago_string(5), "5s ago");
    assert_eq!(time_ago_string(-3), "-3s ago");
    assert_eq!(time_ago_string(59), "59s ago");
    assert_eq!(time_ago_string(60), "1m ago");
    assert_eq!(time_ago_string(3599), "59m ago");
    assert_eq!(time_ago_string(7200), "2h ago");
    assert_eq!(time_ago_string(172_800), "2d ago");
    assert_eq!(time_ago_string(i64::MIN), "-9223372036854775808s ago");
}

#[test]
fn time_ago_measures_whole_seconds_between_instants() {
    let p = pasta("x", Timestamp { secs: 1000, nanos: 900_000_000 });
    // 119.2 seconds later: 1 whole minute.
    assert_eq!(p.time_ago_at(&Timestamp { secs: 1120, nanos: 100_000_000 }), "1m ago");
    // 0.5 seconds earlier: rounds toward zero.
    assert_eq!(p.time_ago_at(&Timestamp { secs: 1000, nanos: 400_000_000 }), "0s ago");
    // 1.5 seconds earlier.
    assert_eq!(p.time_ago_at(&Timestamp { secs: 999, nanos: 400_000_000 }), "-1s ago");
}

#[test]
fn time_ago_from_clock_is_recent() {
    let p = pasta("x", Timestamp { secs: 1_600_000_000, nanos: 0 });
    assert!(p.short_last_read_time_ago_as_string().ends_with("d ago"));
}

#[test]
fn pasta_types() {
    let t = Timestamp { secs: 0, nanos: 0 };
    assert_eq!(pasta("https://example.com/page", t).pasta_type(), "URL");
    assert_eq!(pasta("hello world", t).pasta_type(), "TEXT");
    assert_eq!(pasta("see https://example.com", t).pasta_type(), "TEXT");
    assert_eq!(pasta("", t).pasta_type(), "TEXT");
}

#[test]
fn size_units() {
    let t = Timestamp { secs: 0, nanos: 0 };
    assert_eq!(pasta(&"a".repeat(1023), t).total_size_unit(), SizeUnit::Bytes);
    assert_eq!(pasta(&"a".repeat(1024), t).total_size_unit(), SizeUnit::KiloBytes);
    assert_eq!(pasta(&"a".repeat(1024 * 1024), t).total_size_unit(), SizeUnit::MegaBytes);
    // Bytes, not characters, are counted.
    assert_eq!(pasta(&"é".repeat(512), t).total_size_unit(), SizeUnit::KiloBytes);
}

#[test]
fn staleness() {
    let read = Timestamp { secs: 10_000, nanos: 0 };
    let mut p = pasta("x", read);
    let now = Timestamp { secs: 10_000 + 3 * 86_400 - 1, nanos: 0 };
    assert!(!p.is_stale_at(&now, 0));
    assert!(!p.is_stale_at(&now, 3));
    assert!(p.is_stale_at(&now, 2));
    p.expiration = Some(now);
    assert!(p.is_stale_at(&now, 0));
    p.expiration = Some(Timestamp { secs: now.secs, nanos: 1 });
    assert!(!p.is_stale_at(&now, 0));
    p.burn_after_reads = 2;
    p.read_count = 2;
    assert!(p.is_stale_at(&now, 0));
}
