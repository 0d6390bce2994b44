use vstd::prelude::*;
use crate::errors::CoreError;
use crate::outside::{
    b64url_decoded, b64url_decode, json_str_field, json_i64_field, json_string_field,
    json_integer_field, string_from_utf8, url_encoded, url_encode,
};
use crate::store::CredentialStore;
use crate::strutil::{spec_find, view_opt};

verus! {

/// Identity-provider client settings, constructed once at startup and passed
/// explicitly (no ambient environment lookups in the core).
pub struct OauthConfig {
    pub client_id: String,
    pub client_secret: String,
    pub redirect_uri: String,
}

/// The provider's token-endpoint response, one explicit optional field per
/// provider quirk (a consent-less login omits the refresh token).
pub struct TokenResponse {
    pub access_token: Option<String>,
    pub refresh_token: Option<String>,
    pub expires_in: Option<i64>,
    pub id_token: String,
    pub token_type: Option<String>,
    pub scope: Option<String>,
}

/// The credential set one authorization yields.
pub struct Tokens {
    pub access_token: String,
    pub refresh_token: Option<String>,
    pub id_token: String,
}

pub open spec fn success_status(status: u16) -> bool {
    200 <= status < 300
}

pub open spec fn oauth_scope_spec() -> Seq<char> {
    "openid email profile https://www.googleapis.com/auth/gmail.readonly https://www.googleapis.com/auth/gmail.send https://www.googleapis.com/auth/gmail.modify"@
}

/// The authorization URL: fixed endpoint, the configured client id, the
/// percent-encoded redirect URI and scopes, and the caller's anti-CSRF
/// `state` carried through verbatim as the final query parameter.
pub open spec fn auth_url_spec(cfg: OauthConfig, state: Seq<char>) -> Seq<char> {
    "https://accounts.google.com/o/oauth2/v2/auth?client_id="@ + cfg.client_id@
        + "&redirect_uri="@ + url_encoded(cfg.redirect_uri@) + "&response_type=code&scope="@
        + url_encoded(oauth_scope_spec()) + "&access_type=offline&prompt=consent&state="@ + state
}

/// Deterministic construction of the provider's authorization URL. The
/// caller-supplied `state` is appended unmodified, so the provider hands it
/// back for the caller to re-validate.
pub fn build_auth_url(cfg: &OauthConfig, state: &str) -> (r: String)
    ensures
        r@ == auth_url_spec(*cfg, state@),
{
    let mut url = String::new();
    url.append("https://accounts.google.com/o/oauth2/v2/auth?client_id=");
    url.append(cfg.client_id.as_str());
    url.append("&redirect_uri=");
    let enc_redirect = url_encode(cfg.redirect_uri.as_str());
    url.append(enc_redirect.as_str());
    url.append("&response_type=code&scope=");
    let enc_scope = url_encode(
        "openid email profile https://www.googleapis.com/auth/gmail.readonly https://www.googleapis.com/auth/gmail.send https://www.googleapis.com/auth/gmail.modify",
    );
    url.append(enc_scope.as_str());
    url.append("&access_type=offline&prompt=consent&state=");
    url.append(state);
    proof {
        assert(url@ =~= auth_url_spec(*cfg, state@));
    }
    url
}

/// The form of the `authorization_code` grant: the code and the client
/// credentials, nothing else.
pub fn build_exchange_request(cfg: &OauthConfig, code: &str) -> (r: Vec<(String, String)>)
    ensures
        r@.len() == 5,
        r@[0].0@ == "code"@ && r@[0].1@ == code@,
        r@[1].0@ == "client_id"@ && r@[1].1@ == cfg.client_id@,
        r@[2].0@ == "client_secret"@ && r@[2].1@ == cfg.client_secret@,
        r@[3].0@ == "redirect_uri"@ && r@[3].1@ == cfg.redirect_uri@,
        r@[4].0@ == "grant_type"@ && r@[4].1@ == "authorization_code"@,
{
    let mut params: Vec<(String, String)> = Vec::new();
    params.push(("code".to_owned(), code.to_owned()));
    params.push(("client_id".to_owned(), cfg.client_id.clone()));
    params.push(("client_secret".to_owned(), cfg.client_secret.clone()));
    params.push(("redirect_uri".to_owned(), cfg.redirect_uri.clone()));
    params.push(("grant_type".to_owned(), "authorization_code".to_owned()));
    params
}

/// Interprets the token endpoint's answer to a code exchange. Success is
/// owed exactly when the HTTP status is a success and the body is a JSON
/// object carrying a non-empty `id_token`; a non-success status or a body
/// without a string `id_token` is `ExchangeFailed` (with the raw body kept
/// for diagnosis), and a present-but-empty `id_token` is the distinct
/// `MissingIdentityToken`.
pub fn exchange_outcome(status: u16, body: &str) -> (r: Result<TokenResponse, CoreError>)
    ensures
        r is Ok <==> (success_status(status) && (json_str_field(body@, "id_token"@) matches Some(s)
            && s.len() > 0)),
        r matches Ok(t) ==> {
            &&& Some(t.id_token@) == json_str_field(body@, "id_token"@)
            &&& view_opt(t.access_token) == json_str_field(body@, "access_token"@)
            &&& view_opt(t.refresh_token) == json_str_field(body@, "refresh_token"@)
            &&& t.expires_in == json_i64_field(body@, "expires_in"@)
            &&& view_opt(t.token_type) == json_str_field(body@, "token_type"@)
            &&& view_opt(t.scope) == json_str_field(body@, "scope"@)
        },
        r matches Err(e) ==> match e {
            CoreError::ExchangeFailed(b) => b@ == body@ && (!success_status(status)
                || json_str_field(body@, "id_token"@) is None),
            CoreError::MissingIdentityToken => success_status(status) && json_str_field(
                body@,
                "id_token"@,
            ) == Some(Seq::<char>::empty()),
            _ => false,
        },
{
    if !(200 <= status && status < 300) {
        return Err(CoreError::ExchangeFailed(body.to_owned()));
    }
    let id_token = match json_string_field(body, "id_token") {
        Some(t) => t,
        None => {
            return Err(CoreError::ExchangeFailed(body.to_owned()));
        },
    };
    if id_token.as_str().unicode_len() == 0 {
        return Err(CoreError::MissingIdentityToken);
    }
    Ok(
        TokenResponse {
            access_token: json_string_field(body, "access_token"),
            refresh_token: json_string_field(body, "refresh_token"),
            expires_in: json_integer_field(body, "expires_in"),
            id_token,
            token_type: json_string_field(body, "token_type"),
            scope: json_string_field(body, "scope"),
        },
    )
}

/// The form of the `refresh_token` grant: client credentials and exactly the
/// presented refresh token.
pub fn build_refresh_request(cfg: &OauthConfig, refresh_token: &str) -> (r: Vec<(String, String)>)
    ensures
        r@.len() == 4,
        r@[0].0@ == "client_id"@ && r@[0].1@ == cfg.client_id@,
        r@[1].0@ == "client_secret"@ && r@[1].1@ == cfg.client_secret@,
        r@[2].0@ == "refresh_token"@ && r@[2].1@ == refresh_token@,
        r@[3].0@ == "grant_type"@ && r@[3].1@ == "refresh_token"@,
{
    let mut params: Vec<(String, String)> = Vec::new();
    params.push(("client_id".to_owned(), cfg.client_id.clone()));
    params.push(("client_secret".to_owned(), cfg.client_secret.clone()));
    params.push(("refresh_token".to_owned(), refresh_token.to_owned()));
    params.push(("grant_type".to_owned(), "refresh_token".to_owned()));
    params
}

/// The renewal request for `user_email`, built from the stored credential.
/// Succeeds exactly when a credential is stored; the request then presents
/// exactly the stored refresh token. Absence means the user must redo the
/// authorization flow (`NoStoredCredential`).
pub fn refresh_request_for(store: &CredentialStore, cfg: &OauthConfig, user_email: &str) -> (r:
    Result<Vec<(String, String)>, CoreError>)
    requires
        store.wf(),
    ensures
        r is Ok <==> store.as_map().contains_key(user_email@),
        r matches Ok(ps) ==> {
            &&& ps@.len() == 4
            &&& ps@[0].0@ == "client_id"@ && ps@[0].1@ == cfg.client_id@
            &&& ps@[1].0@ == "client_secret"@ && ps@[1].1@ == cfg.client_secret@
            &&& ps@[2].0@ == "refresh_token"@ && ps@[2].1@ == store.as_map()[user_email@]
            &&& ps@[3].0@ == "grant_type"@ && ps@[3].1@ == "refresh_token"@
        },
        r matches Err(e) ==> e matches CoreError::NoStoredCredential,
{
    match store.get_refresh_token(user_email) {
        Some(token) => Ok(build_refresh_request(cfg, token.as_str())),
        None => Err(CoreError::NoStoredCredential),
    }
}

/// Interprets the token endpoint's answer to a refresh grant: the new
/// access token is owed exactly when the status is a success and the body
/// carries a string `access_token`; everything else is `RefreshFailed` with
/// the raw body preserved.
pub fn refresh_outcome(status: u16, body: &str) -> (r: Result<String, CoreError>)
    ensures
        r is Ok <==> (success_status(status) && json_str_field(body@, "access_token"@) is Some),
        r matches Ok(t) ==> Some(t@) == json_str_field(body@, "access_token"@),
        r matches Err(e) ==> (e matches CoreError::RefreshFailed(b) && b@ == body@ && (
        !success_status(status) || json_str_field(body@, "access_token"@) is None)),
{
    if !(200 <= status && status < 300) {
        return Err(CoreError::RefreshFailed(body.to_owned()));
    }
    match json_string_field(body, "access_token") {
        Some(t) => Ok(t),
        None => Err(CoreError::RefreshFailed(body.to_owned())),
    }
}

/// `s` with every trailing `=` removed: the canonical unpadded form that
/// both padded and unpadded base64url inputs share.
pub open spec fn strip_eq(s: Seq<char>) -> Seq<char>
    decreases s.len(),
{
    if s.len() > 0 && s.last() == '=' {
        strip_eq(s.drop_last())
    } else {
        s
    }
}

/// The middle (payload) segment of a dot-separated token: between the first
/// two dots, or everything after the first dot where there is no second;
/// `None` where the token has no dot at all.
pub open spec fn payload_segment(t: Seq<char>) -> Option<Seq<char>> {
    let i = spec_find(t, '.', 0);
    if i == -1 {
        None
    } else {
        let j = spec_find(t, '.', i + 1);
        if j == -1 {
            Some(t.subrange(i + 1, t.len() as int))
        } else {
            Some(t.subrange(i + 1, j))
        }
    }
}

/// The claims a payload segment decodes to: base64url after stripping any
/// padding, then UTF-8.
pub open spec fn segment_claims_text(seg: Seq<char>) -> Option<Seq<char>> {
    match b64url_decoded(strip_eq(seg)) {
        Some(b) => if vstd::utf8::valid_utf8(b) {
            Some(vstd::utf8::decode_utf8(b))
        } else {
            None
        },
        None => None,
    }
}

/// The decoded claims JSON of a token's payload segment, if decodable.
pub open spec fn claims_text_of(t: Seq<char>) -> Option<Seq<char>> {
    match payload_segment(t) {
        Some(seg) => segment_claims_text(seg),
        None => None,
    }
}

/// The `email` claim of a token's payload, if the payload decodes to a JSON
/// object holding one.
pub open spec fn identity_of(t: Seq<char>) -> Option<Seq<char>> {
    match claims_text_of(t) {
        Some(c) => json_str_field(c, "email"@),
        None => None,
    }
}

/// Removes trailing `=` padding, matching `strip_eq`.
fn strip_trailing_eq(s: &str) -> (r: &str)
    ensures
        r@ == strip_eq(s@),
{
    let len = s.unicode_len();
    let mut end: usize = len;
    proof {
        assert(s@.subrange(0, len as int) =~= s@);
    }
    while end > 0 && s.get_char(end - 1) == '='
        invariant
            end <= s@.len(),
            strip_eq(s@) == strip_eq(s@.subrange(0, end as int)),
        decreases end,
    {
        proof {
            assert(s@.subrange(0, end as int).drop_last() =~= s@.subrange(0, end - 1));
        }
        end = end - 1;
    }
    s.substring_char(0, end)
}

/// Decodes the payload (middle) segment of an identity token: base64url,
/// tolerating both padded and unpadded encodings. Never panics: a token
/// without a dot, undecodable base64 or non-UTF-8 content is the
/// recoverable `MissingIdentityToken` failure.
pub fn decode_jwt_payload(token: &str) -> (r: Result<String, CoreError>)
    ensures
        r is Ok <==> claims_text_of(token@) is Some,
        r matches Ok(s) ==> claims_text_of(token@) == Some(s@),
        r matches Err(e) ==> e matches CoreError::MissingIdentityToken && claims_text_of(token@)
            is None,
{
    let len = token.unicode_len();
    let i = match crate::strutil::find_char(token, '.', 0) {
        Some(i) => i,
        None => {
            return Err(CoreError::MissingIdentityToken);
        },
    };
    let j = match crate::strutil::find_char(token, '.', i + 1) {
        Some(j) => j,
        None => len,
    };
    proof {
        crate::strutil::lemma_spec_find_bounds(token@, '.', i + 1);
    }
    let seg = token.substring_char(i + 1, j);
    let stripped = strip_trailing_eq(seg);
    let bytes = match b64url_decode(stripped) {
        Some(b) => b,
        None => {
            return Err(CoreError::MissingIdentityToken);
        },
    };
    match string_from_utf8(bytes) {
        Some(s) => Ok(s),
        None => Err(CoreError::MissingIdentityToken),
    }
}

/// Resolves the verified user identity: the `email` claim of the identity
/// token's payload. `MissingIdentityToken` where the payload cannot be
/// decoded at all, `IdentityClaimMissing` where it decodes but carries no
/// email claim; both are recoverable, reportable failures.
pub fn extract_identity(token: &str) -> (r: Result<String, CoreError>)
    ensures
        r is Ok <==> identity_of(token@) is Some,
        r matches Ok(email) ==> identity_of(token@) == Some(email@),
        r matches Err(e) ==> match e {
            CoreError::MissingIdentityToken => claims_text_of(token@) is None,
            CoreError::IdentityClaimMissing => claims_text_of(token@) is Some && identity_of(
                token@,
            ) is None,
            _ => false,
        },
{
    let claims = match decode_jwt_payload(token) {
        Ok(c) => c,
        Err(e) => {
            return Err(e);
        },
    };
    match json_string_field(claims.as_str(), "email") {
        Some(email) => Ok(email),
        None => Err(CoreError::IdentityClaimMissing),
    }
}

/// Padding on top of `s` strips away again.
pub open spec fn is_eq_padding(p: Seq<char>) -> bool {
    forall|i: int| 0 <= i < p.len() ==> p[i] == '='
}

proof fn lemma_strip_eq_padding(s: Seq<char>, pad: Seq<char>)
    requires
        is_eq_padding(pad),
    ensures
        strip_eq(s + pad) == strip_eq(s),
    decreases pad.len(),
{
    if pad.len() == 0 {
        assert(s + pad =~= s);
    } else {
        assert((s + pad).last() == '=');
        assert((s + pad).drop_last() =~= s + pad.drop_last());
        assert(is_eq_padding(pad.drop_last()));
        lemma_strip_eq_padding(s, pad.drop_last());
    }
}

/// Law: identity extraction is padding-tolerant — a payload segment with
/// trailing `=` padding decodes to exactly the claims of the unpadded
/// segment, so padded and unpadded identity tokens with equivalent content
/// yield the same claim set (and in particular the same email claim).
pub proof fn lemma_identity_padding_tolerant(seg: Seq<char>, pad: Seq<char>)
    requires
        is_eq_padding(pad),
    ensures
        segment_claims_text(seg + pad) == segment_claims_text(seg),
        match segment_claims_text(seg + pad) {
            Some(c) => segment_claims_text(seg) == Some(c) && json_str_field(c, "email"@)
                == match segment_claims_text(seg) {
                Some(c2) => json_str_field(c2, "email"@),
                None => None,
            },
            None => segment_claims_text(seg) is None,
        },
{
    lemma_strip_eq_padding(seg, pad);
}

/// The redirect sent to the frontend after a successful authorization: the
/// session token and the percent-encoded identity as query parameters.
pub fn build_login_redirect(frontend: &str, token: &str, email: &str) -> (r: String)
    ensures
        r@ == frontend@ + "/login?token="@ + token@ + "&email="@ + url_encoded(email@),
{
    let mut url = String::new();
    url.append(frontend);
    url.append("/login?token=");
    url.append(token);
    url.append("&email=");
    let enc = url_encode(email);
    url.append(enc.as_str());
    proof {
        assert(url@ =~= frontend@ + "/login?token="@ + token@ + "&email="@ + url_encoded(email@));
    }
    url
}

} // verus!
