//! Checking an enclave's attestation quote: parsing, the local policy, the
//! DCAP status, hex and base64 input.

pub mod quote;
pub mod cli;
pub mod hex;
pub mod dcap;
pub mod input;
