use linkdrop::clock::Timestamp;
use linkdrop::endpoints::webrtc_routes::{should_relay, JoinOutcome, PeerRole, WebRTCRooms};
use linkdrop::util::misc::{is_valid_url, qr_markup, string_to_qr_svg};

#[test]
fn peers_join_in_roles_and_a_third_is_turned_away() {
    let t = Timestamp { secs: 1, nanos: 0 };
    let mut rooms = WebRTCRooms::new();
    assert_eq!(rooms.join("room", 1, t), JoinOutcome::Joined { role: PeerRole::Initiator });
    assert_eq!(rooms.join("room", 2, t), JoinOutcome::Joined { role: PeerRole::Receiver });
    assert_eq!(rooms.join("room", 3, t), JoinOutcome::RoomFull);
    assert_eq!(rooms.relay_targets("room", 1), vec![2]);
    assert_eq!(rooms.relay_targets("room", 2), vec![1]);
    assert_eq!(rooms.relay_targets("other", 1), Vec::<usize>::new());
}

#[test]
fn leaving_tells_the_other_peer_and_closes_empty_rooms() {
    let t = Timestamp { secs: 1, nanos: 0 };
    let mut rooms = WebRTCRooms::new();
    rooms.join("room", 1, t);
    rooms.join("room", 2, t);
    assert_eq!(rooms.leave("room", 1), vec![2]);
    assert_eq!(rooms.join("room", 3, t), JoinOutcome::Joined { role: PeerRole::Receiver });
    assert_eq!(rooms.leave("room", 2), vec![3]);
    assert_eq!(rooms.leave("room", 3), Vec::<usize>::new());
    assert_eq!(rooms.join("room", 4, t), JoinOutcome::Joined { role: PeerRole::Initiator });
}

#[test]
fn relayed_message_types() {
    assert!(should_relay(r#"{"type":"offer","data":{}}"#));
    assert!(should_relay(r#"{"type":"answer"}"#));
    assert!(should_relay(r#"{"type":"candidate","data":1}"#));
    assert!(should_relay(r#"{"type":"sender_ready"}"#));
    assert!(!should_relay(r#"{"type":"role"}"#));
    assert!(!should_relay(r#"{"type":5}"#));
    assert!(!should_relay(r#"{"kind":"offer"}"#));
    assert!(!should_relay("not json"));
}

#[test]
fn url_detection() {
    assert!(is_valid_url("https://example.com"));
    assert!(is_valid_url("http://example.com/a?b=c"));
    assert!(!is_valid_url("example.com"));
    assert!(!is_valid_url("https://example.com and more"));
    assert!(!is_valid_url(""));
}

#[test]
fn qr_svg_markup() {
    let svg = string_to_qr_svg("https://example.com/abc");
    assert!(svg.starts_with("<?xml"));
    assert!(svg.contains("<svg viewBox=\"0 0 256 256\" preserveAspectRatio=\"xMidYMid meet\" "));
    let long = "a".repeat(5000);
    let svg_long = string_to_qr_svg(&long);
    assert_eq!(svg_long, string_to_qr_svg(&"a".repeat(1024)));
}

#[test]
fn qr_markup_scales_the_generator_svg() {
    assert_eq!(
        qr_markup("<svg width=\"256\" viewBox=\"0 0 10 10\"></svg>"),
        "<svg preserveAspectRatio=\"xMidYMid meet\" width=\"256\" viewBox=\"0 0 10 10\"></svg>"
    );
    assert_eq!(
        qr_markup("<svg width=\"1\"></svg>"),
        "<svg viewBox=\"0 0 256 256\" preserveAspectRatio=\"xMidYMid meet\" width=\"1\"></svg>"
    );
    assert_eq!(qr_markup("no tag"), "no tag");
}
