use vstd::prelude::*;

use crate::ct::bytes::Long;
use crate::tools::input::{base64_url_decode, base64_url_encode, url_safe_decode, url_safe_encode};

verus! {

/// Path of the credential-issuing endpoint.
pub const DEFAULT_REGISTER_API: &'static str = "/star/register";

/// Path of the endpoint that serves the enclave's public key.
pub const DEFAULT_PUBLIC_KEY_API: &'static str = "/star/public_key";

/// Serves the enclave's public key.
pub struct PublicKeyApi {
    pub public_key: Long,
}

impl PublicKeyApi {
    pub fn from_public_key(public_key: Long) -> (r: Self)
        ensures
            r.public_key == public_key,
    {
        PublicKeyApi { public_key }
    }

    /// The answer of the public-key endpoint: `200` and the key as URL-safe
    /// base64.
    pub fn handle(&self) -> (r: (u16, String))
        ensures
            r.0 == 200,
            r.1@ == base64_url_encode(self.public_key@),
    {
        (200, url_safe_encode(&self.public_key))
    }
}

/// The enclave's envelope in the body of a registration request (URL-safe
/// base64), or `None`, answered with `400`.
pub fn decode_issue_request(body: &[u8]) -> (r: Option<Vec<u8>>)
    ensures
        match base64_url_decode(body@) {
            Some(v) => r matches Some(w) && w@ == v,
            None => r is None,
        },
{
    match url_safe_decode(body) {
        Ok(v) => Some(v),
        Err(_) => None,
    }
}

/// The answer of the registration endpoint once the enclave answered: `200`
/// and the encrypted credential as URL-safe base64, or `500` and no body
/// when the enclave failed.
pub fn issue_response<X>(credential: Result<Vec<u8>, X>) -> (r: (u16, String))
    ensures
        match credential {
            Ok(c) => r.0 == 200 && r.1@ == base64_url_encode(c@),
            Err(_) => r.0 == 500 && r.1@.len() == 0,
        },
{
    match credential {
        Ok(c) => (200, url_safe_encode(c.as_slice())),
        Err(_) => (500, String::new()),
    }
}

} // verus!
