use vstd::prelude::*;

verus! {

/// The already-authenticated identity a request acts for. The surrounding
/// routing layer resolves it from the session token before any core
/// operation runs; the core itself never sees raw credentials.
#[derive(Clone)]
pub struct AuthenticatedUser {
    pub email: String,
}

/// The session token's claim set: the subject identity and its expiry.
pub struct Claims {
    pub sub: String,
    pub exp: usize,
}

/// Whether a header value begins with `Bearer ` (and so carries a token).
pub open spec fn has_bearer_prefix(h: Seq<char>) -> bool {
    h.len() >= 7 && h[0] == 'B' && h[1] == 'e' && h[2] == 'a' && h[3] == 'r' && h[4] == 'e' && h[5]
        == 'r' && h[6] == ' '
}

/// The token of an `Authorization: Bearer <token>` header value, if the
/// value has that shape.
pub open spec fn bearer_token_of(h: Seq<char>) -> Option<Seq<char>> {
    if has_bearer_prefix(h) {
        Some(h.subrange(7, h.len() as int))
    } else {
        None
    }
}

/// Splits a `Bearer` authorization header value into its token.
pub fn extract_bearer_token(header: &str) -> (r: Option<String>)
    ensures
        r is Some <==> bearer_token_of(header@) is Some,
        r matches Some(t) ==> bearer_token_of(header@) == Some(t@),
{
    let len = header.unicode_len();
    if len < 7 {
        return None;
    }
    if header.get_char(0) == 'B' && header.get_char(1) == 'e' && header.get_char(2) == 'a'
        && header.get_char(3) == 'r' && header.get_char(4) == 'e' && header.get_char(5) == 'r'
        && header.get_char(6) == ' ' {
        let token = header.substring_char(7, len);
        Some(token.to_owned())
    } else {
        None
    }
}

} // verus!
