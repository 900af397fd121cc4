use shadow_os::nostr::{ListKind1Query, MockNostrService, PublishKind1Request};

#[test]
fn seed_notes_list_newest_first() {
    let service = MockNostrService::new();
    let notes = service.list_kind1(ListKind1Query::default());
    let ids: Vec<&str> = notes.iter().map(|n| n.id.as_str()).collect();
    assert_eq!(ids, vec!["shadow-note-3", "shadow-note-2", "shadow-note-1"]);
}

#[test]
fn published_note_is_listed_first() {
    let mut service = MockNostrService::new();
    let note = service
        .publish_kind1(PublishKind1Request {
            content: Some(String::from("  hello  ")),
            pubkey: None,
        })
        .unwrap();
    assert_eq!(note.content, "hello");
    assert_eq!(note.id, "shadow-note-4");
    assert_eq!(note.created_at, 1_700_000_004);
    assert_eq!(note.pubkey, "npub-shadow-os");
    assert_eq!(note.kind, 1);
    let listed = service.list_kind1(ListKind1Query::default());
    assert_eq!(listed[0].id, "shadow-note-4");
    assert_eq!(listed.len(), 4);
}

#[test]
fn empty_content_is_refused() {
    let mut service = MockNostrService::new();
    let error = service
        .publish_kind1(PublishKind1Request {
            content: Some(String::from("   ")),
            pubkey: Some(String::from("npub-x")),
        })
        .unwrap_err();
    assert_eq!(error.message, "nostr.publishKind1 requires non-empty content");
    assert_eq!(service.list_kind1(ListKind1Query::default()).len(), 3);
}

#[test]
fn filters_by_author_window_and_limit() {
    let service = MockNostrService::new();
    let by_a = service.list_kind1(ListKind1Query {
        authors: Some(vec![String::from("npub-feed-a")]),
        ..ListKind1Query::default()
    });
    assert_eq!(by_a.len(), 2);
    let window = service.list_kind1(ListKind1Query {
        since: Some(1_700_000_002),
        until: Some(1_700_000_002),
        ..ListKind1Query::default()
    });
    assert_eq!(window.len(), 1);
    assert_eq!(window[0].id, "shadow-note-2");
    let limited = service.list_kind1(ListKind1Query {
        limit: Some(1),
        ..ListKind1Query::default()
    });
    assert_eq!(limited.len(), 1);
    assert_eq!(limited[0].id, "shadow-note-3");
}

#[test]
fn named_author_is_kept() {
    let mut service = MockNostrService::new();
    let note = service
        .publish_kind1(PublishKind1Request {
            content: Some(String::from("x")),
            pubkey: Some(String::from("npub-me")),
        })
        .unwrap();
    assert_eq!(note.pubkey, "npub-me");
}
