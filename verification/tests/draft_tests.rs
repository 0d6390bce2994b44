use base64::Engine;
use drafly::ai::{build_basic_prompt, build_reply_prompt, completion_or_placeholder, tone_or_default};
use drafly::dispatch::{begin_send, build_mime_message, reply_subject, send_outcome};
use drafly::drafts::{DraftRequest, DraftStatus, DraftStore, DraftUpdate};
use drafly::errors::CoreError;
use drafly::session::extract_bearer_token;

fn new_draft(store: &mut DraftStore) -> i64 {
    store
        .create_draft(
            7,
            "user@example.com".to_string(),
            "Thanks, sounds good.".to_string(),
            "friendly".to_string(),
            100,
        )
        .unwrap()
}

#[test]
fn create_assigns_sequential_ids_in_draft_state() {
    let mut store = DraftStore::new();
    let a = new_draft(&mut store);
    let b = new_draft(&mut store);
    assert_eq!(a, 1);
    assert_eq!(b, 2);
    let d = store.get_draft(a, "user@example.com").unwrap();
    assert_eq!(d.status, DraftStatus::Draft);
    assert_eq!(d.email_id, 7);
    assert_eq!(d.content, "Thanks, sounds good.");
    assert_eq!(d.tone, "friendly");
    assert!(!d.sent);
    assert_eq!(d.sent_gmail_id, None);
}

#[test]
fn drafts_are_owner_scoped() {
    let mut store = DraftStore::new();
    let id = new_draft(&mut store);
    assert!(store.get_draft(id, "other@example.com").is_none());
    assert!(!store.update_draft(id, "other@example.com", "hijack".to_string(), 5));
    assert!(!store.approve_draft(id, "other@example.com", 5));
    let d = store.get_draft(id, "user@example.com").unwrap();
    assert_eq!(d.content, "Thanks, sounds good.");
    assert_eq!(d.status, DraftStatus::Draft);
}

#[test]
fn edit_replaces_content_and_bumps_updated_at() {
    let mut store = DraftStore::new();
    let id = new_draft(&mut store);
    let update = DraftUpdate {
        content: "Revised.".to_string(),
    };
    assert!(store.update_draft(id, "user@example.com", update.content, 150));
    let d = store.get_draft(id, "user@example.com").unwrap();
    assert_eq!(d.content, "Revised.");
    assert_eq!(d.updated_at, 150);
    assert_eq!(d.created_at, 100);
}

#[test]
fn generation_request_defaults_its_tone() {
    let req = DraftRequest {
        email_id: 7,
        tone: None,
    };
    assert_eq!(tone_or_default(&req.tone), "friendly");
    assert_eq!(req.email_id, 7);
}

#[test]
fn approve_is_idempotent_and_final_after_send() {
    let mut store = DraftStore::new();
    let id = new_draft(&mut store);
    assert!(store.approve_draft(id, "user@example.com", 110));
    assert!(store.approve_draft(id, "user@example.com", 120));
    assert_eq!(
        store.get_draft(id, "user@example.com").unwrap().status,
        DraftStatus::Approved
    );
    assert!(store.record_sent(id, "user@example.com", "g-1".to_string(), 130));
    assert!(!store.approve_draft(id, "user@example.com", 140));
    assert_eq!(
        store.get_draft(id, "user@example.com").unwrap().status,
        DraftStatus::Sent
    );
}

#[test]
fn dispatch_unreachable_before_approval() {
    // The state-machine precondition: from `draft`, no send request is
    // built at all — the attempt is rejected before any network call.
    let mut store = DraftStore::new();
    let id = new_draft(&mut store);
    let d = store.get_draft(id, "user@example.com").unwrap();
    assert!(begin_send(&d, "alice@example.com", "Greetings", "t-1").is_none());
    assert!(!store.record_sent(id, "user@example.com", "g-1".to_string(), 130));
}

#[test]
fn failed_send_keeps_approved_and_retry_succeeds() {
    let mut store = DraftStore::new();
    let id = new_draft(&mut store);
    assert!(store.approve_draft(id, "user@example.com", 110));
    let mut d = store.get_draft(id, "user@example.com").unwrap();

    // Provider rejects: the draft stays exactly as it was, at `approved`.
    let failure: Result<String, CoreError> = send_outcome(503, "backend unavailable");
    assert!(matches!(failure, Err(CoreError::SendFailed(_))));
    d.complete_send(&failure, 120);
    assert_eq!(d.status, DraftStatus::Approved);
    assert_eq!(d.sent_gmail_id, None);
    assert_eq!(d.updated_at, 110);

    // The transient condition clears; the retried send goes through.
    assert!(begin_send(&d, "alice@example.com", "Greetings", "t-1").is_some());
    let success: Result<String, CoreError> = send_outcome(200, "{\"id\":\"sent-99\"}");
    d.complete_send(&success, 130);
    assert_eq!(d.status, DraftStatus::Sent);
    assert_eq!(d.sent_gmail_id.as_deref(), Some("sent-99"));
}

#[test]
fn draft_lifecycle_records_provider_id() {
    // draft -> approved -> sent with provider id "sent-99".
    let mut store = DraftStore::new();
    let id = new_draft(&mut store);
    assert!(store.approve_draft(id, "user@example.com", 110));
    let d = store.get_draft(id, "user@example.com").unwrap();
    let req = begin_send(&d, "alice@example.com", "Greetings", "t-1").expect("approved sends");
    assert_eq!(req.thread_id, "t-1");
    let outcome = send_outcome(200, "{\"id\":\"sent-99\"}").unwrap();
    assert!(store.record_sent(id, "user@example.com", outcome, 120));
    let sent = store.get_draft(id, "user@example.com").unwrap();
    assert_eq!(sent.status, DraftStatus::Sent);
    assert!(sent.sent);
    assert_eq!(sent.sent_gmail_id.as_deref(), Some("sent-99"));
}

#[test]
fn listing_is_newest_first_and_owner_scoped() {
    let mut store = DraftStore::new();
    let a = new_draft(&mut store);
    let _other = store
        .create_draft(9, "bob@example.com".to_string(), "b".to_string(), "formal".to_string(), 150)
        .unwrap();
    let b = new_draft(&mut store);
    let list = store.list_drafts("user@example.com");
    assert_eq!(list.len(), 2);
    assert_eq!(list[0].id, b);
    assert_eq!(list[1].id, a);
}

#[test]
fn reply_prefix_is_stable() {
    assert_eq!(reply_subject("Greetings"), "Re: Greetings");
    assert_eq!(reply_subject("Re: Greetings"), "Re: Greetings");
    assert_eq!(reply_subject(""), "Re: ");
}

#[test]
fn mime_message_layout_is_exact() {
    let m = build_mime_message(
        "user@example.com",
        "alice@example.com",
        "Greetings",
        "t-1",
        "Sounds good.",
    );
    assert_eq!(
        m,
        "From: user@example.com\r\nTo: alice@example.com\r\nSubject: Re: Greetings\r\nIn-Reply-To: t-1\r\nReferences: t-1\r\nContent-Type: text/plain; charset=\"UTF-8\"\r\n\r\nSounds good."
    );
}

#[test]
fn send_request_is_wire_encoded() {
    let mut store = DraftStore::new();
    let id = new_draft(&mut store);
    assert!(store.approve_draft(id, "user@example.com", 110));
    let d = store.get_draft(id, "user@example.com").unwrap();
    let req = begin_send(&d, "alice@example.com", "Greetings", "t-1").unwrap();
    let mime = build_mime_message(
        "user@example.com",
        "alice@example.com",
        "Greetings",
        "t-1",
        "Thanks, sounds good.",
    );
    let expected = base64::engine::general_purpose::URL_SAFE_NO_PAD.encode(mime.as_bytes());
    assert_eq!(req.raw, expected);
}

#[test]
fn send_outcome_requires_provider_id() {
    match send_outcome(200, "{\"ok\":true}") {
        Err(CoreError::SendFailed(body)) => assert_eq!(body, "{\"ok\":true}"),
        _ => panic!("expected SendFailed"),
    }
    match send_outcome(500, "quota exceeded") {
        Err(CoreError::SendFailed(body)) => assert_eq!(body, "quota exceeded"),
        _ => panic!("expected SendFailed"),
    }
}

#[test]
fn bearer_tokens_are_extracted() {
    assert_eq!(
        extract_bearer_token("Bearer abc.def.ghi").as_deref(),
        Some("abc.def.ghi")
    );
    assert_eq!(extract_bearer_token("Basic abc"), None);
    assert_eq!(extract_bearer_token(""), None);
    assert_eq!(extract_bearer_token("Bearer ").as_deref(), Some(""));
}

#[test]
fn tone_defaults_to_friendly() {
    assert_eq!(tone_or_default(&None), "friendly");
    assert_eq!(tone_or_default(&Some("formal".to_string())), "formal");
}

#[test]
fn prompt_carries_context_and_tone() {
    let p = build_reply_prompt("the body", "alice@example.com", "Greetings", "casual");
    let expected = format!(
        "You are writing a professional email reply. Write a complete, ready-to-send email reply in a {} tone.\n\nIMPORTANT INSTRUCTIONS:\n- Write a complete email reply - do NOT use placeholders like [Name], [topic], [Your Name], etc.\n- Use the actual sender's name or email address from the context\n- Reference the original email subject naturally\n- Keep it concise (2-4 sentences typically)\n- Be professional, polite, and {} in tone\n- Write as if you are directly replying to the sender\n- Do not include email headers (To, From, Subject) - just the reply body text\n\nOriginal Email:\nFrom: {}\nSubject: {}\nBody: {}\n\nWrite your complete email reply (body text only, no placeholders):",
        "casual", "casual", "alice@example.com", "Greetings", "the body"
    );
    assert_eq!(p, expected);
    let empty_subject = build_reply_prompt("b", "s@x.com", "", "warm");
    assert!(empty_subject.contains("\nSubject: No subject\n"));
}

#[test]
fn basic_prompt_is_exact() {
    assert_eq!(
        build_basic_prompt("the body", "casual"),
        "Write a casual reply to this email:\n\nthe body\n\nYour reply:"
    );
}

#[test]
fn failed_generation_yields_placeholder() {
    let groq = "{\"choices\":[{\"message\":{\"role\":\"assistant\",\"content\":\"Happy to help!\"}}]}";
    assert_eq!(completion_or_placeholder(groq), "Happy to help!");
    assert_eq!(
        completion_or_placeholder("{\"error\":\"overloaded\"}"),
        "Unable to generate draft."
    );
    assert_eq!(completion_or_placeholder("garbage"), "Unable to generate draft.");
}
