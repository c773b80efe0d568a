//! An HPKE channel from a client to the enclave, and a ChaCha20-Poly1305 reply
//! under a key that the client sent through it.

pub mod client;
pub mod server;
