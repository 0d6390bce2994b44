use vstd::prelude::*;
use crate::errors::CoreError;
use crate::outside::{
    b64url_decoded, b64url_decode, b64std_decoded, b64std_decode, flattened_of, html_render_text,
    json_message_ids, json_list_message_ids, sanitized_of, sanitize_html, string_from_utf8,
};
use crate::oauth::success_status;
use crate::strutil::{seq_eq_ic, seq_starts_with, str_eq, str_eq_ignore_ascii_case,
    str_starts_with, view_opt};

verus! {

/// One mail header, as the provider reports it.
pub struct MailHeader {
    pub name: String,
    pub value: String,
}

/// One node of the provider's MIME-part tree: a leaf carries a mime type
/// and optionally body data (in the provider's base64url encoding); a
/// `multipart/*` node carries child parts.
pub struct MimePart {
    pub mime_type: String,
    pub data: Option<String>,
    pub parts: Vec<MimePart>,
}

/// The typed shape of the provider's full message representation: the
/// top-level fields and headers the core reads, and the payload tree.
pub struct GmailMessage {
    pub thread_id: Option<String>,
    pub snippet: Option<String>,
    pub label_ids: Vec<String>,
    pub headers: Vec<MailHeader>,
    pub payload: MimePart,
}

/// Path parameters of a single-message fetch request.
pub struct FetchOnePath {
    pub gmail_id: String,
}

/// Bound on MIME recursion, guarding against adversarially deep payloads.
pub const MIME_MAX_DEPTH: usize = 100;

/// The value of the first header whose name matches case-insensitively;
/// later duplicates are ignored.
pub open spec fn first_header(hs: Seq<MailHeader>, name: Seq<char>) -> Option<Seq<char>>
    decreases hs.len(),
{
    if hs.len() == 0 {
        None
    } else if seq_eq_ic(hs[0].name@, name) {
        Some(hs[0].value@)
    } else {
        first_header(hs.drop_first(), name)
    }
}

/// Case-insensitive first-match header lookup.
pub fn find_header(hs: &Vec<MailHeader>, name: &str) -> (r: Option<String>)
    ensures
        view_opt(r) == first_header(hs@, name@),
{
    let n = hs.len();
    let mut i: usize = 0;
    proof {
        assert(hs@.subrange(0, n as int) =~= hs@);
    }
    while i < n
        invariant
            n == hs@.len(),
            i <= n,
            first_header(hs@, name@) == first_header(hs@.subrange(i as int, n as int), name@),
        decreases n - i,
    {
        proof {
            assert(hs@.subrange(i as int, n as int).drop_first() =~= hs@.subrange(
                i + 1,
                n as int,
            ));
        }
        if str_eq_ignore_ascii_case(hs[i].name.as_str(), name) {
            return Some(hs[i].value.clone());
        }
        i = i + 1;
    }
    None
}

/// What a part's body data decodes to: the provider's base64url-no-padding
/// alphabet first, standard base64 as a fallback, and the empty string
/// where neither succeeds or the bytes are not UTF-8.
pub open spec fn utf8_or_empty(b: Seq<u8>) -> Seq<char> {
    if vstd::utf8::valid_utf8(b) {
        vstd::utf8::decode_utf8(b)
    } else {
        Seq::empty()
    }
}

pub open spec fn decoded_part_data(s: Seq<char>) -> Seq<char> {
    match b64url_decoded(s) {
        Some(b) => utf8_or_empty(b),
        None => match b64std_decoded(s) {
            Some(b) => utf8_or_empty(b),
            None => Seq::empty(),
        },
    }
}

pub fn decode_part_data(s: &str) -> (r: String)
    ensures
        r@ == decoded_part_data(s@),
{
    let bytes = match b64url_decode(s) {
        Some(b) => b,
        None => match b64std_decode(s) {
            Some(b) => b,
            None => {
                return String::new();
            },
        },
    };
    match string_from_utf8(bytes) {
        Some(text) => text,
        None => String::new(),
    }
}

/// One step of the body walk over a part: a `text/plain` or `text/html`
/// leaf with data replaces the respective accumulator (the last such leaf
/// in depth-first order wins); a `multipart/*` node within the depth budget
/// is walked child by child, left to right.
pub open spec fn walk_part(
    p: MimePart,
    depth: nat,
    acc: (Option<Seq<char>>, Option<Seq<char>>),
) -> (Option<Seq<char>>, Option<Seq<char>>)
    decreases depth, 0nat,
{
    if p.mime_type@ == "text/plain"@ {
        match view_opt(p.data) {
            Some(d) => (Some(decoded_part_data(d)), acc.1),
            None => acc,
        }
    } else if p.mime_type@ == "text/html"@ {
        match view_opt(p.data) {
            Some(d) => (acc.0, Some(decoded_part_data(d))),
            None => acc,
        }
    } else if seq_starts_with(p.mime_type@, "multipart/"@) && depth > 0 {
        walk_children(p.parts@, (depth - 1) as nat, acc)
    } else {
        acc
    }
}

pub open spec fn walk_children(
    s: Seq<MimePart>,
    depth: nat,
    acc: (Option<Seq<char>>, Option<Seq<char>>),
) -> (Option<Seq<char>>, Option<Seq<char>>)
    decreases depth, s.len(),
{
    if s.len() == 0 {
        acc
    } else {
        walk_children(s.drop_first(), depth, walk_part(s[0], depth, acc))
    }
}

/// Recursive body extraction, mirroring `walk_part`.
pub fn walk_part_exec(
    p: &MimePart,
    depth: usize,
    bt: &mut Option<String>,
    bh: &mut Option<String>,
)
    ensures
        (view_opt(*final(bt)), view_opt(*final(bh))) == walk_part(
            *p,
            depth as nat,
            (view_opt(*old(bt)), view_opt(*old(bh))),
        ),
    decreases depth, 0nat,
{
    if str_eq(p.mime_type.as_str(), "text/plain") {
        match &p.data {
            Some(d) => {
                *bt = Some(decode_part_data(d.as_str()));
            },
            None => (),
        }
    } else if str_eq(p.mime_type.as_str(), "text/html") {
        match &p.data {
            Some(d) => {
                *bh = Some(decode_part_data(d.as_str()));
            },
            None => (),
        }
    } else if str_starts_with(p.mime_type.as_str(), "multipart/") && depth > 0 {
        let ghost acc0 = (view_opt(*old(bt)), view_opt(*old(bh)));
        let n = p.parts.len();
        let mut i: usize = 0;
        proof {
            assert(p.parts@.subrange(0, n as int) =~= p.parts@);
        }
        while i < n
            invariant
                n == p.parts@.len(),
                i <= n,
                depth >= 1,
                walk_children(p.parts@, (depth - 1) as nat, acc0) == walk_children(
                    p.parts@.subrange(i as int, n as int),
                    (depth - 1) as nat,
                    (view_opt(*bt), view_opt(*bh)),
                ),
            decreases n - i,
        {
            proof {
                assert(p.parts@.subrange(i as int, n as int).drop_first() =~= p.parts@.subrange(
                    i + 1,
                    n as int,
                ));
                assert(p.parts@.subrange(i as int, n as int)[0] == p.parts@[i as int]);
            }
            walk_part_exec(&p.parts[i], depth - 1, bt, bh);
            i = i + 1;
        }
    }
}

/// The plain-text and HTML bodies the walk leaves, starting from nothing.
pub open spec fn bodies_of(payload: MimePart) -> (Option<Seq<char>>, Option<Seq<char>>) {
    walk_part(payload, MIME_MAX_DEPTH as nat, (None, None))
}

/// The stored plain-text body: the walked `text/plain` body where one
/// exists; otherwise, where only an HTML body exists, that body sanitized
/// (scripts and unsafe markup stripped) and flattened to text. The derived
/// text is never stored as HTML.
pub open spec fn body_text_of(payload: MimePart) -> Option<Seq<char>> {
    match bodies_of(payload) {
        (Some(t), _) => Some(t),
        (None, Some(h)) => Some(flattened_of(sanitized_of(h))),
        (None, None) => None,
    }
}

/// The stored HTML body: exactly what the walk found.
pub open spec fn body_html_of(payload: MimePart) -> Option<Seq<char>> {
    bodies_of(payload).1
}

/// Extracts both bodies from a payload tree, applying the HTML-to-text
/// fallback.
pub fn extract_bodies(payload: &MimePart) -> (r: (Option<String>, Option<String>))
    ensures
        view_opt(r.0) == body_text_of(*payload),
        view_opt(r.1) == body_html_of(*payload),
{
    let mut bt: Option<String> = None;
    let mut bh: Option<String> = None;
    walk_part_exec(payload, MIME_MAX_DEPTH, &mut bt, &mut bh);
    if bt.is_none() {
        match &bh {
            Some(h) => {
                let cleaned = sanitize_html(h.as_str());
                bt = Some(html_render_text(cleaned.as_str()));
            },
            None => (),
        }
    }
    (bt, bh)
}

/// Builds the storable record of a fetched message: owner, provider ids,
/// the first `Subject`/`From`/`To` headers (case-insensitive name match,
/// later duplicates ignored), snippet, both extracted bodies and the label
/// set. The row id is left for the store to assign.
pub fn extract_email_row(
    user_email: &str,
    gmail_id: &str,
    msg: &GmailMessage,
    fetched_at: i64,
) -> (r: crate::store::EmailRow)
    ensures
        r.id == 0,
        r.gmail_id@ == gmail_id@,
        view_opt(r.user_email) == Some(user_email@),
        view_opt(r.thread_id) == view_opt(msg.thread_id),
        view_opt(r.sender) == first_header(msg.headers@, "From"@),
        view_opt(r.to_recipients) == first_header(msg.headers@, "To"@),
        view_opt(r.subject) == first_header(msg.headers@, "Subject"@),
        view_opt(r.snippet) == view_opt(msg.snippet),
        view_opt(r.body_text) == body_text_of(msg.payload),
        view_opt(r.body_html) == body_html_of(msg.payload),
        crate::store::labels_view(r.labels) == Some(msg.label_ids.deep_view()),
        r.fetched_at == fetched_at,
{
    let (body_text, body_html) = extract_bodies(&msg.payload);
    crate::store::EmailRow {
        id: 0,
        gmail_id: gmail_id.to_owned(),
        thread_id: crate::strutil::clone_opt_string(&msg.thread_id),
        user_email: Some(user_email.to_owned()),
        sender: find_header(&msg.headers, "From"),
        to_recipients: find_header(&msg.headers, "To"),
        subject: find_header(&msg.headers, "Subject"),
        snippet: crate::strutil::clone_opt_string(&msg.snippet),
        body_text,
        body_html,
        labels: Some(crate::strutil::clone_string_vec(&msg.label_ids)),
        fetched_at,
    }
}

/// Parses-and-stores one fetched message: the record extracted from the
/// typed payload is upserted under its provider message id, overwriting
/// the mutable fields of any earlier fetch while the row id, owner and
/// recipients stay as first stored. Fails only on id-space exhaustion,
/// writing nothing.
pub fn ingest_message(
    store: &mut crate::store::MessageStore,
    user_email: &str,
    gmail_id: &str,
    msg: &GmailMessage,
    fetched_at: i64,
) -> (r: Result<i64, CoreError>)
    requires
        old(store).wf(),
    ensures
        final(store).wf(),
        r is Err <==> (!old(store).as_map().contains_key(gmail_id@) && old(store).fresh_id()
            >= 0x7fff_ffff),
        r matches Ok(id) ==> {
            &&& final(store).as_map().contains_key(gmail_id@)
            &&& ({
                let row = final(store).as_map()[gmail_id@];
                &&& row.id == id
                &&& row.gmail_id@ == gmail_id@
                &&& view_opt(row.thread_id) == view_opt(msg.thread_id)
                &&& view_opt(row.sender) == first_header(msg.headers@, "From"@)
                &&& view_opt(row.subject) == first_header(msg.headers@, "Subject"@)
                &&& view_opt(row.snippet) == view_opt(msg.snippet)
                &&& view_opt(row.body_text) == body_text_of(msg.payload)
                &&& view_opt(row.body_html) == body_html_of(msg.payload)
                &&& crate::store::labels_view(row.labels) == Some(msg.label_ids.deep_view())
                &&& row.fetched_at == fetched_at
                &&& (!old(store).as_map().contains_key(gmail_id@) ==> view_opt(row.user_email)
                    == Some(user_email@) && view_opt(row.to_recipients) == first_header(
                    msg.headers@,
                    "To"@,
                ))
                &&& (old(store).as_map().contains_key(gmail_id@) ==> {
                    let stored = old(store).as_map()[gmail_id@];
                    &&& row.id == stored.id
                    &&& row.user_email == stored.user_email
                    &&& row.to_recipients == stored.to_recipients
                })
            })
            &&& final(store).as_map().dom() =~= old(store).as_map().dom().insert(gmail_id@)
        },
        r matches Err(e) ==> e matches CoreError::StorageError(_) && *final(store) == *old(store),
{
    let row = extract_email_row(user_email, gmail_id, msg, fetched_at);
    store.upsert_message(row)
}

/// Non-success statuses of the message fetch abort the whole fetch with
/// `FetchFailed`, the body kept for diagnostics; nothing is written.
pub fn fetch_outcome(status: u16, body: &str) -> (r: Result<(), CoreError>)
    ensures
        r is Ok <==> success_status(status),
        r matches Err(e) ==> (e matches CoreError::FetchFailed(b) && b@ == body@
            && !success_status(status)),
{
    if 200 <= status && status < 300 {
        Ok(())
    } else {
        Err(CoreError::FetchFailed(body.to_owned()))
    }
}

/// The ids among a list-response's entries, in order.
pub open spec fn some_ids(s: Seq<Option<Seq<char>>>) -> Seq<Seq<char>>
    decreases s.len(),
{
    if s.len() == 0 {
        Seq::empty()
    } else {
        match s.last() {
            Some(id) => some_ids(s.drop_last()).push(id),
            None => some_ids(s.drop_last()),
        }
    }
}

/// `s` cut to its first `k` entries, or all of them if fewer.
pub open spec fn take_up_to(s: Seq<Option<Seq<char>>>, k: int) -> Seq<Option<Seq<char>>> {
    if k <= s.len() {
        s.take(k)
    } else {
        s
    }
}

/// The batch plan for an unread-list response: the message ids of the first
/// `limit` entries (entries without a string id skipped). Each id is then
/// fetched independently; one failing message never aborts the rest.
pub fn unread_fetch_plan(body: &str, limit: usize) -> (r: Vec<String>)
    ensures
        r.deep_view() == some_ids(take_up_to(json_message_ids(body@), limit as int)),
{
    let entries = json_list_message_ids(body);
    let n = entries.len();
    let stop: usize = if n < limit {
        n
    } else {
        limit
    };
    let mut out: Vec<String> = Vec::new();
    let mut i: usize = 0;
    proof {
        assert(json_message_ids(body@).subrange(0, 0) =~= Seq::<Option<Seq<char>>>::empty());
        assert(out.deep_view() =~= some_ids(json_message_ids(body@).subrange(0, 0)));
    }
    while i < stop
        invariant
            n == entries@.len(),
            n == json_message_ids(body@).len(),
            stop <= n,
            stop <= limit,
            i <= stop,
            forall|k: int|
                0 <= k < n ==> ((entries@[k] is Some <==> json_message_ids(body@)[k] is Some) && (
                entries@[k] matches Some(x) ==> json_message_ids(body@)[k] == Some(x@))),
            out.deep_view() == some_ids(json_message_ids(body@).subrange(0, i as int)),
        decreases stop - i,
    {
        proof {
            assert(json_message_ids(body@).subrange(0, i + 1).drop_last() =~= json_message_ids(
                body@,
            ).subrange(0, i as int));
            assert(json_message_ids(body@).subrange(0, i + 1).last() == json_message_ids(body@)[i as int]);
        }
        match &entries[i] {
            Some(id) => {
                out.push(id.clone());
                proof {
                    assert(out.deep_view() =~= some_ids(
                        json_message_ids(body@).subrange(0, i + 1),
                    ));
                }
            },
            None => (),
        }
        i = i + 1;
    }
    proof {
        assert(json_message_ids(body@).subrange(0, stop as int) =~= take_up_to(
            json_message_ids(body@),
            limit as int,
        ));
    }
    out
}

} // verus!
