use base64::Engine;
use drafly::errors::CoreError;
use drafly::oauth::{
    build_auth_url, build_exchange_request, build_refresh_request, decode_jwt_payload,
    exchange_outcome, extract_identity, refresh_outcome, refresh_request_for, OauthConfig,
};
use drafly::store::CredentialStore;

fn config() -> OauthConfig {
    OauthConfig {
        client_id: "cid-123".to_string(),
        client_secret: "cs-456".to_string(),
        redirect_uri: "http://localhost:8000/auth/google/callback".to_string(),
    }
}

fn id_token_with_payload(payload: &str, pad: bool) -> String {
    let engine = &base64::engine::general_purpose::URL_SAFE_NO_PAD;
    let mut middle = engine.encode(payload.as_bytes());
    if pad {
        while middle.len() % 4 != 0 {
            middle.push('=');
        }
    }
    format!("eyJhbGciOiJSUzI1NiJ9.{}.sig", middle)
}

#[test]
fn auth_url_carries_state_and_encoded_redirect() {
    let cfg = config();
    let url = build_auth_url(&cfg, "nonce-77");
    let scope = "openid email profile https://www.googleapis.com/auth/gmail.readonly https://www.googleapis.com/auth/gmail.send https://www.googleapis.com/auth/gmail.modify";
    let expected = format!(
        "https://accounts.google.com/o/oauth2/v2/auth?client_id={}&redirect_uri={}&response_type=code&scope={}&access_type=offline&prompt=consent&state={}",
        "cid-123",
        urlencoding::encode("http://localhost:8000/auth/google/callback"),
        urlencoding::encode(scope),
        "nonce-77"
    );
    assert_eq!(url, expected);
}

#[test]
fn exchange_request_names_code_and_grant() {
    let cfg = config();
    let params = build_exchange_request(&cfg, "abc123");
    assert_eq!(params.len(), 5);
    assert_eq!(params[0], ("code".to_string(), "abc123".to_string()));
    assert_eq!(params[1], ("client_id".to_string(), "cid-123".to_string()));
    assert_eq!(params[2], ("client_secret".to_string(), "cs-456".to_string()));
    assert_eq!(
        params[3],
        (
            "redirect_uri".to_string(),
            "http://localhost:8000/auth/google/callback".to_string()
        )
    );
    assert_eq!(
        params[4],
        ("grant_type".to_string(), "authorization_code".to_string())
    );
}

#[test]
fn exchange_fails_on_error_status() {
    let r = exchange_outcome(400, "{\"error\":\"invalid_grant\"}");
    match r {
        Err(CoreError::ExchangeFailed(body)) => assert_eq!(body, "{\"error\":\"invalid_grant\"}"),
        _ => panic!("expected ExchangeFailed"),
    }
}

#[test]
fn exchange_fails_on_malformed_body() {
    let r = exchange_outcome(200, "not json at all");
    assert!(matches!(r, Err(CoreError::ExchangeFailed(_))));
}

#[test]
fn exchange_distinguishes_empty_id_token() {
    let r = exchange_outcome(200, "{\"access_token\":\"a\",\"id_token\":\"\"}");
    assert!(matches!(r, Err(CoreError::MissingIdentityToken)));
}

#[test]
fn exchange_parses_full_response() {
    let tok = id_token_with_payload("{\"email\":\"user@example.com\"}", false);
    let body = format!(
        "{{\"access_token\":\"at-1\",\"refresh_token\":\"r-1\",\"expires_in\":3599,\"id_token\":\"{}\",\"token_type\":\"Bearer\",\"scope\":\"email\"}}",
        tok
    );
    let t = exchange_outcome(200, &body).expect("exchange should succeed");
    assert_eq!(t.access_token.as_deref(), Some("at-1"));
    assert_eq!(t.refresh_token.as_deref(), Some("r-1"));
    assert_eq!(t.expires_in, Some(3599));
    assert_eq!(t.id_token, tok);
    assert_eq!(t.token_type.as_deref(), Some("Bearer"));
    assert_eq!(t.scope.as_deref(), Some("email"));
}

#[test]
fn identity_from_unpadded_and_padded_tokens_agrees() {
    let unpadded = id_token_with_payload("{\"email\":\"user@example.com\"}", false);
    let padded = id_token_with_payload("{\"email\":\"user@example.com\"}", true);
    let a = extract_identity(&unpadded).expect("unpadded accepted");
    let b = extract_identity(&padded).expect("padded accepted");
    assert_eq!(a, "user@example.com");
    assert_eq!(a, b);
    let ca = decode_jwt_payload(&unpadded).expect("payload decodes");
    let cb = decode_jwt_payload(&padded).expect("payload decodes");
    assert_eq!(ca, cb);
}

#[test]
fn identity_claim_missing_is_reported() {
    let tok = id_token_with_payload("{\"name\":\"nobody\"}", false);
    assert!(matches!(
        extract_identity(&tok),
        Err(CoreError::IdentityClaimMissing)
    ));
}

#[test]
fn undecodable_token_is_recoverable() {
    assert!(matches!(
        extract_identity("no-dots-here"),
        Err(CoreError::MissingIdentityToken)
    ));
    assert!(matches!(
        extract_identity("a.!!!not-base64!!!.b"),
        Err(CoreError::MissingIdentityToken)
    ));
}

#[test]
fn refresh_request_uses_stored_token_exactly() {
    // Full authorization-code scenario: code "abc123" exchanged, identity
    // extracted, refresh credential "r-1" stored, renewal presents it.
    let cfg = config();
    let tok = id_token_with_payload("{\"email\":\"user@example.com\"}", false);
    let body = format!(
        "{{\"access_token\":\"at-1\",\"refresh_token\":\"r-1\",\"id_token\":\"{}\"}}",
        tok
    );
    let _ = build_exchange_request(&cfg, "abc123");
    let t = exchange_outcome(200, &body).expect("exchange ok");
    let email = extract_identity(&t.id_token).expect("identity ok");
    assert_eq!(email, "user@example.com");

    let mut store = CredentialStore::new();
    store.persist_credential(&email, &t.refresh_token);
    let params = refresh_request_for(&store, &cfg, "user@example.com").expect("credential stored");
    assert_eq!(
        params[2],
        ("refresh_token".to_string(), "r-1".to_string())
    );
    assert_eq!(
        params[3],
        ("grant_type".to_string(), "refresh_token".to_string())
    );
}

#[test]
fn refresh_without_credential_fails() {
    let store = CredentialStore::new();
    let r = refresh_request_for(&store, &config(), "user@example.com");
    assert!(matches!(r, Err(CoreError::NoStoredCredential)));
}

#[test]
fn persist_none_keeps_existing_credential() {
    let mut store = CredentialStore::new();
    store.persist_credential("user@example.com", &Some("r-1".to_string()));
    store.persist_credential("user@example.com", &None);
    assert_eq!(
        store.get_refresh_token("user@example.com"),
        Some("r-1".to_string())
    );
}

#[test]
fn persist_replaces_on_new_login() {
    let mut store = CredentialStore::new();
    store.insert_token("user@example.com", "r-1");
    store.insert_token("user@example.com", "r-2");
    assert_eq!(
        store.get_refresh_token("user@example.com"),
        Some("r-2".to_string())
    );
    assert_eq!(store.get_refresh_token("other@example.com"), None);
}

#[test]
fn refresh_outcome_reads_access_token() {
    let r = refresh_outcome(200, "{\"access_token\":\"fresh-at\",\"expires_in\":3599}");
    assert_eq!(r.unwrap(), "fresh-at");
}

#[test]
fn refresh_outcome_fails_without_access_token() {
    let r = refresh_outcome(200, "{\"expires_in\":3599}");
    assert!(matches!(r, Err(CoreError::RefreshFailed(_))));
    let r2 = refresh_outcome(503, "{\"access_token\":\"x\"}");
    match r2 {
        Err(CoreError::RefreshFailed(body)) => assert_eq!(body, "{\"access_token\":\"x\"}"),
        _ => panic!("expected RefreshFailed"),
    }
}

#[test]
fn refresh_grant_params_shape() {
    let params = build_refresh_request(&config(), "tok-9");
    assert_eq!(params.len(), 4);
    assert_eq!(params[0], ("client_id".to_string(), "cid-123".to_string()));
    assert_eq!(
        params[1],
        ("client_secret".to_string(), "cs-456".to_string())
    );
    assert_eq!(params[2], ("refresh_token".to_string(), "tok-9".to_string()));
    assert_eq!(
        params[3],
        ("grant_type".to_string(), "refresh_token".to_string())
    );
}

#[test]
fn error_stages_are_stable() {
    assert_eq!(CoreError::MissingIdentityToken.stage(), "missing_id_token");
    assert_eq!(CoreError::NoStoredCredential.stage(), "no_stored_credential");
    assert_eq!(
        CoreError::StorageError("x".to_string()).stage(),
        "storage_error"
    );
}

#[test]
fn error_messages_keep_the_raw_body() {
    assert_eq!(
        CoreError::SendFailed("quota exceeded".to_string()).message(),
        "send_failed: quota exceeded"
    );
    assert_eq!(
        CoreError::RefreshFailed("{\"error\":\"invalid_grant\"}".to_string()).message(),
        "refresh_failed: {\"error\":\"invalid_grant\"}"
    );
    assert_eq!(CoreError::NoStoredCredential.message(), "no_stored_credential");
}
