use shadow_os::relay::{
    build_qr_rows, build_receipt, connect_failure_message, default_relay_urls,
    format_failed_relays, normalize_failed_relays, normalize_relay_urls, publish_content,
    publish_timeout_ms, PublishedRelayFailure,
};

fn failure(url: &str, error: &str) -> PublishedRelayFailure {
    PublishedRelayFailure {
        relay_url: String::from(url),
        error: String::from(error),
    }
}

#[test]
fn content_is_trimmed_and_required() {
    assert_eq!(publish_content(Some(String::from(" hi \n"))).unwrap(), "hi");
    assert_eq!(
        publish_content(Some(String::from("  "))).unwrap_err(),
        "nostr.publishEphemeralKind1 requires non-empty content"
    );
    assert!(publish_content(None).is_err());
}

#[test]
fn timeout_defaults_when_missing_or_zero() {
    assert_eq!(publish_timeout_ms(None), 12_000);
    assert_eq!(publish_timeout_ms(Some(0)), 12_000);
    assert_eq!(publish_timeout_ms(Some(5)), 5);
}

#[test]
fn relay_urls_default_and_normalize() {
    assert_eq!(
        default_relay_urls(),
        vec!["wss://relay.primal.net/", "wss://relay.damus.io/"]
    );
    let urls = normalize_relay_urls(None).unwrap();
    assert_eq!(urls.len(), 2);
    let urls = normalize_relay_urls(Some(vec![String::from("  wss://relay.damus.io/  ")])).unwrap();
    assert_eq!(urls, vec!["wss://relay.damus.io/"]);
}

#[test]
fn relay_url_errors_name_the_problem() {
    assert_eq!(
        normalize_relay_urls(Some(Vec::new())).unwrap_err(),
        "nostr.publishEphemeralKind1 requires at least one relay URL"
    );
    assert_eq!(
        normalize_relay_urls(Some(vec![String::from("wss://ok.example/"), String::from(" ")]))
            .unwrap_err(),
        "nostr.publishEphemeralKind1 relay URL cannot be empty"
    );
    let error = normalize_relay_urls(Some(vec![String::from("not a url")])).unwrap_err();
    assert!(error.starts_with("nostr.publishEphemeralKind1 invalid relay URL not a url: "));
}

#[test]
fn failures_sort_by_url_and_format() {
    let failed = vec![failure("wss://b/", "timeout"), failure("wss://a/", "refused")];
    let sorted = normalize_failed_relays(&failed);
    assert_eq!(sorted[0].relay_url, "wss://a/");
    assert_eq!(sorted[1].relay_url, "wss://b/");
    assert_eq!(
        format_failed_relays(&sorted),
        "wss://a/ (refused), wss://b/ (timeout)"
    );
    assert_eq!(format_failed_relays(&[]), "");
    assert_eq!(
        connect_failure_message(&failed),
        "nostr.publishEphemeralKind1 could not connect to any relay: wss://a/ (refused), wss://b/ (timeout)"
    );
}

#[test]
fn qr_rows_are_square_bit_strings() {
    let rows = build_qr_rows("https://primal.net/e/note1example").unwrap();
    assert!(rows.len() >= 21);
    for row in &rows {
        assert_eq!(row.len(), rows.len());
        assert!(row.chars().all(|c| c == '0' || c == '1'));
    }
    // Finder pattern: the top-left module is dark.
    assert!(rows[0].starts_with('1'));
}

#[test]
fn qr_rejects_oversized_data() {
    let data = "x".repeat(4000);
    let error = build_qr_rows(&data).unwrap_err();
    assert!(error.starts_with("nostr.publishEphemeralKind1 generate QR: DataOverCapacity("));
}

#[test]
fn receipt_needs_a_publishing_relay() {
    let failed = vec![failure("wss://a/", "blocked")];
    let error = build_receipt(
        String::from("hi"),
        [7; 32],
        vec![String::from("wss://a/")],
        [9; 32],
        5,
        Vec::new(),
        &failed,
    )
    .unwrap_err();
    assert_eq!(
        error,
        "nostr.publishEphemeralKind1 was rejected by every relay: wss://a/ (blocked)"
    );
    let receipt = build_receipt(
        String::from("hi"),
        [7; 32],
        vec![String::from("wss://a/")],
        [9; 32],
        5,
        vec![String::from("wss://a/")],
        &Vec::new(),
    )
    .unwrap();
    assert!(receipt.note_id.starts_with("note1"));
    assert_eq!(receipt.primal_url, format!("https://primal.net/e/{}", receipt.note_id));
    assert_eq!(receipt.event_id_hex, "09".repeat(32));
    assert_eq!(receipt.created_at, 5);
    assert!(!receipt.qr_rows.is_empty());
}

#[test]
fn sorting_failures_keeps_each_and_equal_urls_in_order() {
    let failed = vec![
        failure("wss://c/", "one"),
        failure("wss://a/", "two"),
        failure("wss://c/", "three"),
        failure("wss://b/", "four"),
        failure("wss://a/", "five"),
    ];
    let sorted = normalize_failed_relays(&failed);
    let pairs: Vec<(&str, &str)> = sorted.iter().map(|f| (f.relay_url.as_str(), f.error.as_str())).collect();
    assert_eq!(
        pairs,
        vec![
            ("wss://a/", "two"),
            ("wss://a/", "five"),
            ("wss://b/", "four"),
            ("wss://c/", "one"),
            ("wss://c/", "three"),
        ]
    );
}

fn hex_bytes(text: &str) -> [u8; 32] {
    let mut out = [0u8; 32];
    for (i, byte) in out.iter_mut().enumerate() {
        *byte = u8::from_str_radix(&text[2 * i..2 * i + 2], 16).unwrap();
    }
    out
}

#[test]
fn receipt_names_the_key_and_note_in_bech32_and_hex() {
    let key = hex_bytes("3bf0c63fcb93463407af97a5e5ee64fa883d107ef9e558472c4eb9aaaefa459d");
    let id = hex_bytes("0123456789abcdef00ff00ff00ff00ff00ff00ff00ff00ff00ff00ff00ff00ff");
    let receipt = build_receipt(
        String::from("hi"),
        key,
        vec![String::from("wss://a/")],
        id,
        1,
        vec![String::from("wss://a/")],
        &Vec::new(),
    )
    .unwrap();
    assert_eq!(receipt.npub, "npub180cvv07tjdrrgpa0j7j7tmnyl2yr6yr7l8j4s3evf6u64th6gkwsyjh6w6");
    assert_eq!(receipt.event_id_hex, "0123456789abcdef00ff00ff00ff00ff00ff00ff00ff00ff00ff00ff00ff00ff");
    assert!(receipt.note_id.starts_with("note1"));
    assert_eq!(receipt.note_id.len(), 63);
}
