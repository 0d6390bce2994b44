use base64::Engine;
use drafly::errors::CoreError;
use drafly::ingest::{
    fetch_outcome, find_header, ingest_message, unread_fetch_plan, GmailMessage, MailHeader,
    MimePart,
};
use drafly::store::MessageStore;

fn b64url(data: &[u8]) -> String {
    base64::engine::general_purpose::URL_SAFE_NO_PAD.encode(data)
}

fn leaf(mime: &str, data: Option<String>) -> MimePart {
    MimePart {
        mime_type: mime.to_string(),
        data,
        parts: Vec::new(),
    }
}

fn headers() -> Vec<MailHeader> {
    vec![
        MailHeader {
            name: "Subject".to_string(),
            value: "Greetings".to_string(),
        },
        MailHeader {
            name: "From".to_string(),
            value: "alice@example.com".to_string(),
        },
        MailHeader {
            name: "To".to_string(),
            value: "bob@example.com".to_string(),
        },
    ]
}

fn message(payload: MimePart) -> GmailMessage {
    GmailMessage {
        thread_id: Some("t-1".to_string()),
        snippet: Some("Hello".to_string()),
        label_ids: vec!["INBOX".to_string(), "UNREAD".to_string()],
        headers: headers(),
        payload,
    }
}

#[test]
fn plain_part_decodes_to_body_text() {
    // A single text/plain part whose data is "Hello" base64url-encoded.
    let msg = message(leaf("text/plain", Some(b64url(b"Hello"))));
    let mut store = MessageStore::new();
    let id = ingest_message(&mut store, "user@example.com", "msg-42", &msg, 100).unwrap();
    let row = store.get_email(id, "user@example.com").expect("row stored");
    assert_eq!(row.body_text.as_deref(), Some("Hello"));
    assert_eq!(row.body_html, None);
    assert_eq!(row.gmail_id, "msg-42");
    assert_eq!(row.subject.as_deref(), Some("Greetings"));
    assert_eq!(row.sender.as_deref(), Some("alice@example.com"));
    assert_eq!(row.to_recipients.as_deref(), Some("bob@example.com"));
    assert_eq!(row.snippet.as_deref(), Some("Hello"));
    assert_eq!(row.thread_id.as_deref(), Some("t-1"));
    assert_eq!(
        row.labels,
        Some(vec!["INBOX".to_string(), "UNREAD".to_string()])
    );
    assert_eq!(row.fetched_at, 100);
}

#[test]
fn standard_base64_fallback_decodes() {
    // Standard-alphabet padded base64 fails the url-safe engine and is
    // decoded by the fallback: "Hi~?" has bytes that encode with '+' and '/'.
    let data = base64::engine::general_purpose::STANDARD.encode(&[0xfbu8, 0xff, 0xbf, 0x3e]);
    assert!(data.contains('+') || data.contains('/') || data.contains('='));
    let msg = message(leaf("text/plain", Some(data)));
    let mut store = MessageStore::new();
    let id = ingest_message(&mut store, "user@example.com", "m-std", &msg, 1).unwrap();
    let row = store.get_email(id, "user@example.com").unwrap();
    // Bytes are not valid UTF-8, so decoding gives the empty string, not a panic.
    assert_eq!(row.body_text.as_deref(), Some(""));
}

#[test]
fn html_only_message_derives_text() {
    let html = "<p>Hello <script>evil()</script>world</p>";
    let msg = message(leaf("text/html", Some(b64url(html.as_bytes()))));
    let mut store = MessageStore::new();
    let id = ingest_message(&mut store, "user@example.com", "m-html", &msg, 1).unwrap();
    let row = store.get_email(id, "user@example.com").unwrap();
    let cleaned = ammonia::Builder::new().clean(html).to_string();
    let expected = html2text::from_read(cleaned.as_bytes(), 1024);
    assert_eq!(row.body_text.as_deref(), Some(expected.as_str()));
    assert!(!row.body_text.as_deref().unwrap().contains("evil"));
    assert_eq!(row.body_html.as_deref(), Some(html));
}

#[test]
fn multipart_recursion_finds_both_bodies() {
    let inner = MimePart {
        mime_type: "multipart/alternative".to_string(),
        data: None,
        parts: vec![
            leaf("text/plain", Some(b64url(b"plain body"))),
            leaf("text/html", Some(b64url(b"<b>html body</b>"))),
        ],
    };
    let outer = MimePart {
        mime_type: "multipart/mixed".to_string(),
        data: None,
        parts: vec![leaf("application/pdf", None), inner],
    };
    let msg = message(outer);
    let mut store = MessageStore::new();
    let id = ingest_message(&mut store, "user@example.com", "m-multi", &msg, 1).unwrap();
    let row = store.get_email(id, "user@example.com").unwrap();
    assert_eq!(row.body_text.as_deref(), Some("plain body"));
    assert_eq!(row.body_html.as_deref(), Some("<b>html body</b>"));
}

#[test]
fn later_plain_part_wins() {
    let payload = MimePart {
        mime_type: "multipart/mixed".to_string(),
        data: None,
        parts: vec![
            leaf("text/plain", Some(b64url(b"first"))),
            leaf("text/plain", Some(b64url(b"second"))),
        ],
    };
    let msg = message(payload);
    let mut store = MessageStore::new();
    let id = ingest_message(&mut store, "user@example.com", "m-two", &msg, 1).unwrap();
    let row = store.get_email(id, "user@example.com").unwrap();
    assert_eq!(row.body_text.as_deref(), Some("second"));
}

#[test]
fn header_match_is_case_insensitive_first_wins() {
    let hs = vec![
        MailHeader {
            name: "SUBJECT".to_string(),
            value: "first".to_string(),
        },
        MailHeader {
            name: "subject".to_string(),
            value: "second".to_string(),
        },
    ];
    assert_eq!(find_header(&hs, "Subject").as_deref(), Some("first"));
    assert_eq!(find_header(&hs, "From"), None);
}

#[test]
fn refetch_overwrites_fields_keeps_one_row_and_id() {
    // Upserting the same provider message id twice, with different
    // subjects, leaves exactly one row bearing the second subject.
    let mut store = MessageStore::new();
    let mut msg1 = message(leaf("text/plain", Some(b64url(b"v1"))));
    msg1.headers[0].value = "subject one".to_string();
    let id1 = ingest_message(&mut store, "user@example.com", "m-1", &msg1, 10).unwrap();

    let mut msg2 = message(leaf("text/plain", Some(b64url(b"v2"))));
    msg2.headers[0].value = "subject two".to_string();
    msg2.headers[2].value = "carol@example.com".to_string();
    let id2 = ingest_message(&mut store, "user@example.com", "m-1", &msg2, 20).unwrap();

    assert_eq!(id1, id2);
    let rows = store.list_emails("user@example.com", 100);
    assert_eq!(rows.len(), 1);
    assert_eq!(rows[0].subject.as_deref(), Some("subject two"));
    assert_eq!(rows[0].body_text.as_deref(), Some("v2"));
    assert_eq!(rows[0].fetched_at, 20);
    assert_eq!(rows[0].id, id1);
    // Recipients and owner are not among the mutable fields: the first
    // fetch's values survive the re-fetch.
    assert_eq!(rows[0].to_recipients.as_deref(), Some("bob@example.com"));
    assert_eq!(rows[0].user_email.as_deref(), Some("user@example.com"));
}

#[test]
fn listing_is_owner_scoped_and_recency_ordered() {
    let mut store = MessageStore::new();
    let m = |s: &str| message(leaf("text/plain", Some(b64url(s.as_bytes()))));
    let a = ingest_message(&mut store, "alice@example.com", "m-a", &m("a"), 1).unwrap();
    let _b = ingest_message(&mut store, "bob@example.com", "m-b", &m("b"), 2).unwrap();
    let _c = ingest_message(&mut store, "alice@example.com", "m-c", &m("c"), 3).unwrap();
    // Re-fetch m-a: it becomes the most recent for alice.
    let a2 = ingest_message(&mut store, "alice@example.com", "m-a", &m("a2"), 4).unwrap();
    assert_eq!(a, a2);

    let rows = store.list_emails("alice@example.com", 100);
    assert_eq!(rows.len(), 2);
    assert_eq!(rows[0].gmail_id, "m-a");
    assert_eq!(rows[1].gmail_id, "m-c");

    let capped = store.list_emails("alice@example.com", 1);
    assert_eq!(capped.len(), 1);
    assert_eq!(capped[0].gmail_id, "m-a");

    // Owner scoping holds for point lookups too.
    assert!(store.get_email(a, "bob@example.com").is_none());
    assert!(store.get_email(a, "alice@example.com").is_some());
}

#[test]
fn fetch_outcome_preserves_error_body() {
    assert!(fetch_outcome(200, "ignored").is_ok());
    match fetch_outcome(404, "no such message") {
        Err(CoreError::FetchFailed(body)) => assert_eq!(body, "no such message"),
        _ => panic!("expected FetchFailed"),
    }
}

#[test]
fn unread_plan_reads_first_entries_ids() {
    let body = "{\"messages\":[{\"id\":\"m-1\"},{\"id\":\"m-2\"},{\"threadId\":\"t\"},{\"id\":\"m-3\"}]}";
    assert_eq!(
        unread_fetch_plan(body, 20),
        vec!["m-1".to_string(), "m-2".to_string(), "m-3".to_string()]
    );
    // The cap applies to entries, before entries without an id are skipped.
    assert_eq!(
        unread_fetch_plan(body, 3),
        vec!["m-1".to_string(), "m-2".to_string()]
    );
    assert_eq!(unread_fetch_plan("not json", 20), Vec::<String>::new());
    assert_eq!(unread_fetch_plan("{}", 20), Vec::<String>::new());
}
