//! The STAR protocol: credentials, tokens, the secure channel and the enclave
//! that issues them.

pub mod cred;
pub mod token;
pub mod secure_channel;
pub mod enclave;
pub mod client;
