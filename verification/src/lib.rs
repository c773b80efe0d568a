//! STAR: anonymous, rate-limited access tokens issued by an enclave, with the
//! constant-time helpers, duplicate filters and attestation checks around them.

pub mod ct;
pub mod filter_box;
pub mod crypto;
pub mod star_core;
pub mod serv;
pub mod text;
pub mod tools;
pub mod enclave_app;
pub mod client_proxy;
pub mod client_auth;
pub mod laws;
