//! Core of a pool mining client: the binary frame codec spoken with the
//! coordinator, the submission gatekeeper, the nonce-search engine, the
//! session state machine and the earnings journal's aggregation.

mod bytes;
pub mod claim;
pub mod codec;
pub mod engine;
pub mod hash;
pub mod identity;
pub mod journal;
pub mod net;
pub mod session;
pub mod submission;
