//! The crate's trusted boundary: every call into an outside crate is made
//! here, behind a wrapper whose contract states what the call's source
//! promises. Results that would take pages to state (an encoding, a
//! sanitizer, a JSON parse) are given names — uninterpreted spec functions
//! of the input alone — and the callers' contracts speak of those names.
use vstd::prelude::*;
use base64::Engine;

verus! {

/// What base64's URL-safe no-padding engine decodes a string to, or `None`
/// where the input is not valid base64url; depends on the input alone.
pub uninterp spec fn b64url_decoded(s: Seq<char>) -> Option<Seq<u8>>;

/// What base64's standard (padded, `+`/`/`) engine decodes a string to.
pub uninterp spec fn b64std_decoded(s: Seq<char>) -> Option<Seq<u8>>;

/// What base64's URL-safe no-padding engine encodes bytes to.
pub uninterp spec fn b64url_encoded(b: Seq<u8>) -> Seq<char>;

/// The bytes percent-encoding passes through unchanged: ASCII digits,
/// letters, and `-`, `.`, `_`, `~` (code points written out, as byte
/// literals cannot stand in spec code).
pub open spec fn is_unreserved_byte(b: u8) -> bool {
    ||| (48 <= b && b <= 57)  // '0'..'9'
    ||| (65 <= b && b <= 90)  // 'A'..'Z'
    ||| (97 <= b && b <= 122)  // 'a'..'z'
    ||| b == 45  // '-'
    ||| b == 46  // '.'
    ||| b == 95  // '_'
    ||| b == 126  // '~'
}

/// The upper-case hexadecimal digit of a nibble.
pub open spec fn hex_digit_char(n: u8) -> char {
    if n < 10 {
        ((48 + n) as u8) as char  // '0' + n
    } else {
        ((55 + n) as u8) as char  // 'A' + (n - 10)
    }
}

/// Percent-encoding of a byte sequence: an unreserved byte stands as its
/// own character, every other byte as `%` and its two hex digits.
pub open spec fn percent_encoded(bytes: Seq<u8>) -> Seq<char>
    decreases bytes.len(),
{
    if bytes.len() == 0 {
        Seq::empty()
    } else {
        let b = bytes[0];
        let head: Seq<char> = if is_unreserved_byte(b) {
            seq![b as char]
        } else {
            seq!['%', hex_digit_char(b / 16), hex_digit_char(b % 16)]
        };
        head + percent_encoded(bytes.drop_first())
    }
}

/// urlencoding's percent-encoding of a string: its UTF-8 bytes, each
/// unreserved byte kept, every other one escaped.
pub open spec fn url_encoded(s: Seq<char>) -> Seq<char> {
    percent_encoded(vstd::utf8::encode_utf8(s))
}

/// ammonia's sanitization of an HTML fragment (scripts and unsafe markup
/// stripped).
pub uninterp spec fn sanitized_of(s: Seq<char>) -> Seq<char>;

/// html2text's plain-text rendering of an HTML fragment at width 1024.
pub uninterp spec fn flattened_of(s: Seq<char>) -> Seq<char>;

/// The string value of field `key` in the JSON object `s`, or `None` where
/// `s` is not a JSON object, the field is absent, or it is not a string.
pub uninterp spec fn json_str_field(s: Seq<char>, key: Seq<char>) -> Option<Seq<char>>;

/// The integer value of field `key` in the JSON object `s`, if any.
pub uninterp spec fn json_i64_field(s: Seq<char>, key: Seq<char>) -> Option<i64>;

/// The `id` string of each entry of the `messages` array of the JSON object
/// `s` (`None` for an entry without a string id); empty where `s` has no
/// such array.
pub uninterp spec fn json_message_ids(s: Seq<char>) -> Seq<Option<Seq<char>>>;

/// The `choices[0].message.content` string of a chat-completion response
/// body, if present.
pub uninterp spec fn chat_completion_of(s: Seq<char>) -> Option<Seq<char>>;

/// Relies on base64's `Engine::decode` with the
/// `engine::general_purpose::URL_SAFE_NO_PAD` engine: the result is a
/// function of the input characters alone.
#[verifier::external_body]
pub(crate) fn b64url_decode(s: &str) -> (r: Option<Vec<u8>>)
    ensures
        r is Some <==> b64url_decoded(s@) is Some,
        r matches Some(v) ==> b64url_decoded(s@) == Some(v@),
{
    match base64::engine::general_purpose::URL_SAFE_NO_PAD.decode(s.as_bytes()) {
        Ok(v) => Some(v),
        Err(_) => None,
    }
}

/// Relies on base64's `Engine::decode` with the
/// `engine::general_purpose::STANDARD` engine.
#[verifier::external_body]
pub(crate) fn b64std_decode(s: &str) -> (r: Option<Vec<u8>>)
    ensures
        r is Some <==> b64std_decoded(s@) is Some,
        r matches Some(v) ==> b64std_decoded(s@) == Some(v@),
{
    match base64::engine::general_purpose::STANDARD.decode(s.as_bytes()) {
        Ok(v) => Some(v),
        Err(_) => None,
    }
}

/// Relies on base64's `Engine::encode` with the
/// `engine::general_purpose::URL_SAFE_NO_PAD` engine: encoding never fails
/// and depends on the input bytes alone.
#[verifier::external_body]
pub(crate) fn b64url_encode(b: &Vec<u8>) -> (r: String)
    ensures
        r@ == b64url_encoded(b@),
{
    base64::engine::general_purpose::URL_SAFE_NO_PAD.encode(b.as_slice())
}

/// Relies on `urlencoding::encode`: percent-encodes every UTF-8 byte of
/// the input except ASCII alphanumerics and `-`, `_`, `.`, `~`, with
/// upper-case hex digits — exactly `url_encoded`.
#[verifier::external_body]
pub(crate) fn url_encode(s: &str) -> (r: String)
    ensures
        r@ == url_encoded(s@),
{
    urlencoding::encode(s).into_owned()
}

/// Relies on `ammonia::Builder::clean` (default settings): returns the
/// sanitized HTML as a string, a function of the input alone.
#[verifier::external_body]
pub(crate) fn sanitize_html(s: &str) -> (r: String)
    ensures
        r@ == sanitized_of(s@),
{
    ammonia::Builder::new().clean(s).to_string()
}

/// Relies on `html2text::config::plain` and its `string_from_read` at
/// fixed width 1024: renders HTML to plain text, a function of the input
/// alone; a rendering failure yields the empty string rather than a panic.
#[verifier::external_body]
pub(crate) fn html_render_text(s: &str) -> (r: String)
    ensures
        r@ == flattened_of(s@),
{
    match html2text::config::plain().string_from_read(s.as_bytes(), 1024) {
        Ok(text) => text,
        Err(_) => String::new(),
    }
}

/// Relies on `serde_json::from_str::<Value>` followed by `Value::get` and
/// `Value::as_str`: the string value of a top-level field, if the body is a
/// JSON object holding one.
#[verifier::external_body]
pub(crate) fn json_string_field(body: &str, key: &str) -> (r: Option<String>)
    ensures
        r is Some <==> json_str_field(body@, key@) is Some,
        r matches Some(v) ==> json_str_field(body@, key@) == Some(v@),
{
    match serde_json::from_str::<serde_json::Value>(body) {
        Ok(v) => match v.get(key) {
            Some(f) => f.as_str().map(|x| x.to_string()),
            None => None,
        },
        Err(_) => None,
    }
}

/// Relies on `serde_json::from_str::<Value>` followed by `Value::get` and
/// `Value::as_i64`: the integer value of a top-level field, if any.
#[verifier::external_body]
pub(crate) fn json_integer_field(body: &str, key: &str) -> (r: Option<i64>)
    ensures
        r == json_i64_field(body@, key@),
{
    match serde_json::from_str::<serde_json::Value>(body) {
        Ok(v) => match v.get(key) {
            Some(f) => f.as_i64(),
            None => None,
        },
        Err(_) => None,
    }
}

/// Relies on `serde_json::from_str::<Value>`, `Value::as_array`,
/// `Value::get` and `Value::as_str`: the `id` of each entry of the
/// `messages` array, entry by entry.
#[verifier::external_body]
pub(crate) fn json_list_message_ids(body: &str) -> (r: Vec<Option<String>>)
    ensures
        r@.len() == json_message_ids(body@).len(),
        forall|i: int|
            0 <= i < r@.len() ==> ((r@[i] is Some <==> json_message_ids(body@)[i] is Some) && (
            r@[i] matches Some(x) ==> json_message_ids(body@)[i] == Some(x@))),
{
    let v: serde_json::Value = match serde_json::from_str(body) {
        Ok(v) => v,
        Err(_) => return Vec::new(),
    };
    let arr = match v.get("messages").and_then(|m| m.as_array()) {
        Some(a) => a,
        None => return Vec::new(),
    };
    arr.iter().map(|m| m.get("id").and_then(|x| x.as_str()).map(|s| s.to_string())).collect()
}

/// Relies on `serde_json::from_str::<Value>` and chained `Value::get` /
/// `Value::as_str`: the completion text at `choices[0].message.content`.
#[verifier::external_body]
pub(crate) fn json_chat_completion(body: &str) -> (r: Option<String>)
    ensures
        r is Some <==> chat_completion_of(body@) is Some,
        r matches Some(v) ==> chat_completion_of(body@) == Some(v@),
{
    let v: serde_json::Value = match serde_json::from_str(body) {
        Ok(v) => v,
        Err(_) => return None,
    };
    v.get("choices").and_then(|c| c.get(0)).and_then(|c| c.get("message")).and_then(
        |m| m.get("content"),
    ).and_then(|c| c.as_str()).map(|s| s.to_string())
}

/// Relies on `String::from_utf8`, whose documentation promises the decoded
/// string exactly when the bytes are valid UTF-8.
#[verifier::external_body]
pub(crate) fn string_from_utf8(b: Vec<u8>) -> (r: Option<String>)
    ensures
        r is Some <==> vstd::utf8::valid_utf8(b@),
        r matches Some(s) ==> s@ == vstd::utf8::decode_utf8(b@),
{
    String::from_utf8(b).ok()
}

} // verus!
