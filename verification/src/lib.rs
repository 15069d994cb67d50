//! Verification and trust-scoring engine for a cross-chain organization
//! registry.
//!
//! Organizations register a profile and progressively prove control over
//! off-chain identities (a GitHub organization, a domain, social accounts)
//! and on-chain addresses.  A challenge/response protocol issues short-lived
//! single-use secrets, external evidence is checked against them, and
//! deterministic scoring rules convert the accumulated evidence into
//! verification, reputation and risk scores.  A monitoring task queue
//! re-checks accepted proofs with bounded retries, demotes proofs whose
//! backing evidence disappeared, and a fraud detector scans community
//! signals for suspicious patterns.
//!
//! The engine is written against explicit state: every operation takes the
//! registry state, the caller identity and the current time as arguments,
//! and external evidence (DNS text, API responses, chain activity) is handed
//! in as a value.  The surrounding runtime supplies the clock, the transport
//! and the persistence.

pub mod api;
pub mod community;
pub mod crosschain;
pub mod monitoring;
pub mod ratelimit;
pub mod verification;
pub mod storage;
pub mod text;
pub mod types;
