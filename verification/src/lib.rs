//! Verified core of an email-assistant backend: the OAuth token lifecycle
//! (authorization-code exchange, refresh-credential persistence and renewal),
//! mail-message ingestion (header extraction, MIME-part walking, body
//! decoding) and reply dispatch (message construction, wire encoding), plus
//! the draft state machine that gates sending.
//!
//! Network and database I/O live outside this crate; the functions here take
//! plain values (status codes, response bodies, typed message payloads) and
//! return plain values, so that every decision the backend makes is covered
//! by a contract.

pub mod errors;
pub mod strutil;
pub mod store;
pub mod drafts;
pub mod outside;
pub mod oauth;
pub mod session;
pub mod dispatch;
pub mod ingest;
pub mod ai;
