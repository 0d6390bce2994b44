use vstd::prelude::*;

verus! {

/// Failure taxonomy of the core. Every operation returns one of these rather
/// than aborting: `NoStoredCredential` is user-recoverable (the user must
/// redo the authorization flow); the provider-side failures carry the raw
/// response body for diagnosis.
#[derive(Debug, Clone)]
pub enum CoreError {
    /// Token endpoint returned a non-success status or a malformed body.
    ExchangeFailed(String),
    /// The token response carried no usable identity token.
    MissingIdentityToken,
    /// The identity-token payload had no email claim.
    IdentityClaimMissing,
    /// No refresh credential is stored for the identity.
    NoStoredCredential,
    /// The refresh grant failed or returned no access token.
    RefreshFailed(String),
    /// The mail provider rejected a message fetch.
    FetchFailed(String),
    /// The mail provider rejected a send, or named no message id.
    SendFailed(String),
    /// The durable store failed.
    StorageError(String),
}

impl CoreError {
    /// Short stable label for the failure stage, safe to surface to callers.
    pub fn stage(&self) -> (r: &'static str)
        ensures
            r@ == self.stage_spec(),
    {
        match self {
            CoreError::ExchangeFailed(_) => "exchange_failed",
            CoreError::MissingIdentityToken => "missing_id_token",
            CoreError::IdentityClaimMissing => "identity_claim_missing",
            CoreError::NoStoredCredential => "no_stored_credential",
            CoreError::RefreshFailed(_) => "refresh_failed",
            CoreError::FetchFailed(_) => "fetch_failed",
            CoreError::SendFailed(_) => "send_failed",
            CoreError::StorageError(_) => "storage_error",
        }
    }

    pub open spec fn stage_spec(&self) -> Seq<char> {
        match self {
            CoreError::ExchangeFailed(_) => "exchange_failed"@,
            CoreError::MissingIdentityToken => "missing_id_token"@,
            CoreError::IdentityClaimMissing => "identity_claim_missing"@,
            CoreError::NoStoredCredential => "no_stored_credential"@,
            CoreError::RefreshFailed(_) => "refresh_failed"@,
            CoreError::FetchFailed(_) => "fetch_failed"@,
            CoreError::SendFailed(_) => "send_failed"@,
            CoreError::StorageError(_) => "storage_error"@,
        }
    }

    /// The diagnostic detail a failure carries: the raw provider or store
    /// response body, where there is one.
    pub open spec fn detail_spec(&self) -> Option<Seq<char>> {
        match self {
            CoreError::ExchangeFailed(b) => Some(b@),
            CoreError::MissingIdentityToken => None,
            CoreError::IdentityClaimMissing => None,
            CoreError::NoStoredCredential => None,
            CoreError::RefreshFailed(b) => Some(b@),
            CoreError::FetchFailed(b) => Some(b@),
            CoreError::SendFailed(b) => Some(b@),
            CoreError::StorageError(b) => Some(b@),
        }
    }

    pub open spec fn message_spec(&self) -> Seq<char> {
        match self.detail_spec() {
            Some(d) => self.stage_spec() + ": "@ + d,
            None => self.stage_spec(),
        }
    }

    /// The full reportable form of the failure: its stage label and, where
    /// one was preserved, the raw response body for diagnosis.
    pub fn message(&self) -> (r: String)
        ensures
            r@ == self.message_spec(),
    {
        let body: &String = match self {
            CoreError::ExchangeFailed(b) => b,
            CoreError::RefreshFailed(b) => b,
            CoreError::FetchFailed(b) => b,
            CoreError::SendFailed(b) => b,
            CoreError::StorageError(b) => b,
            _ => {
                return self.stage().to_owned();
            },
        };
        let mut s = self.stage().to_owned();
        s.append(": ");
        s.append(body.as_str());
        proof {
            assert(s@ =~= self.message_spec());
        }
        s
    }
}

} // verus!
