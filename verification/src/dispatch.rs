use vstd::prelude::*;
use crate::errors::CoreError;
use crate::drafts::{can_send, DraftRecord};
use crate::outside::{b64url_encoded, b64url_encode, json_str_field, json_string_field};
use crate::oauth::success_status;

verus! {

/// What the provider's send endpoint takes: the full message in the
/// provider's base64url wire encoding, and the thread to attach it to.
pub struct SendRequest {
    pub raw: String,
    pub thread_id: String,
}

/// Whether a subject already carries the reply prefix.
pub open spec fn has_re_prefix(s: Seq<char>) -> bool {
    s.len() >= 3 && s[0] == 'R' && s[1] == 'e' && s[2] == ':'
}

/// The reply subject: prefixed with `Re: ` unless already so prefixed, so
/// repeated replies never accumulate `Re: Re: Re:`.
pub open spec fn reply_subject_spec(s: Seq<char>) -> Seq<char> {
    if has_re_prefix(s) {
        s
    } else {
        "Re: "@ + s
    }
}

/// Law: the reply-subject prefix is idempotent — prefixing an already
/// prefixed subject changes nothing, so repeated sends keep a stable
/// subject.
pub proof fn lemma_reply_subject_idempotent(s: Seq<char>)
    ensures
        reply_subject_spec(reply_subject_spec(s)) == reply_subject_spec(s),
{
    reveal_strlit("Re: ");
    if !has_re_prefix(s) {
        assert(("Re: "@ + s)[0] == 'R');
        assert(("Re: "@ + s)[1] == 'e');
        assert(("Re: "@ + s)[2] == ':');
    }
}

pub fn reply_subject(subject: &str) -> (r: String)
    ensures
        r@ == reply_subject_spec(subject@),
{
    let len = subject.unicode_len();
    if len >= 3 && subject.get_char(0) == 'R' && subject.get_char(1) == 'e' && subject.get_char(2)
        == ':' {
        subject.to_owned()
    } else {
        let mut s = String::new();
        s.append("Re: ");
        s.append(subject);
        s
    }
}

/// The minimal RFC-5322-style reply: addressing headers, the stabilised
/// reply subject, threading headers both set to the thread id, a UTF-8
/// plain-text content type, then a blank line and the body.
pub open spec fn mime_message_spec(
    from: Seq<char>,
    to: Seq<char>,
    subject: Seq<char>,
    thread_id: Seq<char>,
    body: Seq<char>,
) -> Seq<char> {
    "From: "@ + from + "\r\nTo: "@ + to + "\r\nSubject: "@ + reply_subject_spec(subject)
        + "\r\nIn-Reply-To: "@ + thread_id + "\r\nReferences: "@ + thread_id
        + "\r\nContent-Type: text/plain; charset=\"UTF-8\"\r\n\r\n"@ + body
}

pub fn build_mime_message(
    from: &str,
    to: &str,
    subject: &str,
    thread_id: &str,
    body: &str,
) -> (r: String)
    ensures
        r@ == mime_message_spec(from@, to@, subject@, thread_id@, body@),
{
    let mut m = String::new();
    m.append("From: ");
    m.append(from);
    m.append("\r\nTo: ");
    m.append(to);
    m.append("\r\nSubject: ");
    let subj = reply_subject(subject);
    m.append(subj.as_str());
    m.append("\r\nIn-Reply-To: ");
    m.append(thread_id);
    m.append("\r\nReferences: ");
    m.append(thread_id);
    m.append("\r\nContent-Type: text/plain; charset=\"UTF-8\"\r\n\r\n");
    m.append(body);
    proof {
        assert(m@ =~= mime_message_spec(from@, to@, subject@, thread_id@, body@));
    }
    m
}

/// The wire form of the reply: the whole message encoded with the
/// provider's base64url-no-padding alphabet.
pub open spec fn send_request_raw_spec(
    from: Seq<char>,
    to: Seq<char>,
    subject: Seq<char>,
    thread_id: Seq<char>,
    body: Seq<char>,
) -> Seq<char> {
    b64url_encoded(vstd::utf8::encode_utf8(mime_message_spec(from, to, subject, thread_id, body)))
}

/// Builds the complete, correctly-addressed, correctly-threaded send
/// request. Precondition-agnostic: it encodes what it is given.
pub fn build_send_request(
    from: &str,
    to: &str,
    subject: &str,
    thread_id: &str,
    body: &str,
) -> (r: SendRequest)
    ensures
        r.raw@ == send_request_raw_spec(from@, to@, subject@, thread_id@, body@),
        r.thread_id@ == thread_id@,
{
    let mime = build_mime_message(from, to, subject, thread_id, body);
    let bytes = mime.as_str().as_bytes_vec();
    let raw = b64url_encode(&bytes);
    SendRequest { raw, thread_id: thread_id.to_owned() }
}

/// Gate of the draft state machine in front of dispatch: a send request
/// exists exactly for an `approved` draft, so dispatch from any other state
/// is rejected here, before any network request is even constructed.
pub fn begin_send(d: &DraftRecord, to: &str, subject: &str, thread_id: &str) -> (r: Option<
    SendRequest,
>)
    ensures
        r is Some <==> can_send(*d),
        r matches Some(req) ==> {
            &&& req.raw@ == send_request_raw_spec(
                d.user_email@,
                to@,
                subject@,
                thread_id@,
                d.content@,
            )
            &&& req.thread_id@ == thread_id@
        },
{
    match d.status {
        crate::drafts::DraftStatus::Approved => Some(
            build_send_request(d.user_email.as_str(), to, subject, thread_id, d.content.as_str()),
        ),
        _ => None,
    }
}

/// Interprets the provider's answer to a send: the provider-assigned
/// message id is owed exactly when the status is a success and the body
/// names a string `id`; everything else is `SendFailed` carrying the raw
/// response body.
pub fn send_outcome(status: u16, body: &str) -> (r: Result<String, CoreError>)
    ensures
        r is Ok <==> (success_status(status) && json_str_field(body@, "id"@) is Some),
        r matches Ok(id) ==> Some(id@) == json_str_field(body@, "id"@),
        r matches Err(e) ==> (e matches CoreError::SendFailed(b) && b@ == body@ && (
        !success_status(status) || json_str_field(body@, "id"@) is None)),
{
    if !(200 <= status && status < 300) {
        return Err(CoreError::SendFailed(body.to_owned()));
    }
    match json_string_field(body, "id") {
        Some(id) => Ok(id),
        None => Err(CoreError::SendFailed(body.to_owned())),
    }
}

} // verus!
