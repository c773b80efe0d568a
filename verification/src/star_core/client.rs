use vstd::prelude::*;

use crate::ct::bytes::append_bytes;
use crate::ct::time::{be_bytes_u64, u64_to_be};
use crate::star_core::cred::{credential_bytes, Credential};
use crate::star_core::secure_channel::client::{reply_open, sealed_to, SecureChannelClient};
use crate::star_core::token::{be_u32_prefix, token_value, Token};

verus! {

/// The plain token request `credential || count || period`.
pub open spec fn token_request(cred: Credential, counter: u64, period: u64) -> Seq<u8> {
    credential_bytes(cred.uid@, cred.code@) + be_bytes_u64(counter) + be_bytes_u64(period)
}

/// A client: the credential it holds, its channel to the enclave, and how many
/// tokens it may request per period.
pub struct User {
    pub credential: Option<Credential>,
    pub client: SecureChannelClient,
    pub max: u64,
}

impl User {
    /// A user without a credential, capped at `max` token requests per period.
    pub fn new(max: u64, client: SecureChannelClient) -> (r: Self)
        ensures
            r.credential is None,
            r.client == client,
            r.max == max,
    {
        Self { credential: None, client, max }
    }

    /// Asks for a credential: sends a fresh shared key to the enclave; returns
    /// the envelope to send and the key to decrypt the answer with.
    pub fn request_credential(&self) -> (r: Result<(Vec<u8>, [u8; 32]), hpke::HpkeError>)
        ensures
            r matches Ok((env, key)) ==> sealed_to(self.client.receiver_public_key(), env@, key@),
    {
        self.client.send_shared_key()
    }

    /// Decrypts the enclave's answer under the shared key and stores the
    /// credential it carries.
    pub fn receive_credential(&mut self, cipher: &[u8], shared_key: &[u8; 32]) -> (r: Option<
        Credential,
    >)
        requires
            reply_open(shared_key@, cipher@) matches Some(p) && p.len() >= 64,
        ensures
            final(self).client == old(self).client,
            final(self).max == old(self).max,
            r == final(self).credential,
            r matches Some(c) && reply_open(shared_key@, cipher@) matches Some(p) && c.uid@
                == p.subrange(0, 32) && c.code@ == p.subrange(32, 64),
    {
        match self.client.decrypt_with_shared_key(cipher, shared_key) {
            Ok(cred) => self.receive_credential_plain(cred.as_slice()),
            Err(_) => vstd::pervasive::unreached(),
        }
    }

    /// Like `receive_credential`, but returns `None` (and stores nothing) when
    /// the answer does not decrypt to at least 64 bytes.
    pub fn try_receive_credential(&mut self, cipher: &[u8], shared_key: &[u8; 32]) -> (r: Option<
        Credential,
    >)
        ensures
            final(self).client == old(self).client,
            final(self).max == old(self).max,
            match reply_open(shared_key@, cipher@) {
                Some(p) if p.len() >= 64 => r == final(self).credential && (r matches Some(c)
                    && c.uid@ == p.subrange(0, 32) && c.code@ == p.subrange(32, 64)),
                _ => r is None && final(self).credential == old(self).credential,
            },
    {
        match self.client.decrypt_with_shared_key(cipher, shared_key) {
            Ok(cred) => {
                if cred.len() >= 64 {
                    self.receive_credential(cipher, shared_key)
                } else {
                    None
                }
            },
            Err(_) => None,
        }
    }

    /// Stores the credential read from the first 64 bytes.
    pub fn receive_credential_plain(&mut self, credential_bytes: &[u8]) -> (r: Option<Credential>)
        requires
            credential_bytes@.len() >= 64,
        ensures
            final(self).client == old(self).client,
            final(self).max == old(self).max,
            r == final(self).credential,
            r matches Some(c) && c.uid@ == credential_bytes@.subrange(0, 32) && c.code@
                == credential_bytes@.subrange(32, 64),
    {
        let credential = Credential::from_bytes(credential_bytes);
        self.credential = Some(credential);
        self.credential
    }

    /// The plain token request for request number `counter` of `period`.
    pub fn request_auth_plain(&mut self, counter: u64, period: u64) -> (r: Vec<u8>)
        requires
            counter < old(self).max,
            old(self).credential is Some,
        ensures
            *final(self) == *old(self),
            r@ == token_request(old(self).credential->0, counter, period),
    {
        let credential = match self.credential {
            Some(c) => c,
            None => vstd::pervasive::unreached(),
        };
        let count = u64_to_be(counter);
        let period_bytes = u64_to_be(period);
        let credential_bytes = credential.to_bytes();
        let mut token_request: Vec<u8> = Vec::new();
        append_bytes(&mut token_request, credential_bytes.as_slice());
        append_bytes(&mut token_request, &count);
        append_bytes(&mut token_request, &period_bytes);
        token_request
    }

    /// The route that the token for request `counter` of `period` takes among
    /// `max` routes.
    pub fn route(&mut self, counter: u64, period: u64, max: u32) -> (r: u32)
        requires
            old(self).credential is Some,
            max > 0,
        ensures
            *final(self) == *old(self),
            r as int == be_u32_prefix(
                token_value(
                    old(self).credential->0.uid@,
                    be_bytes_u64(period),
                    be_bytes_u64(counter),
                ),
            ) % (max as int),
    {
        let credential = match self.credential {
            Some(c) => c,
            None => vstd::pervasive::unreached(),
        };
        let count = u64_to_be(counter);
        let period_bytes = u64_to_be(period);
        let token = Token::random(credential.uid, period_bytes, count);
        token.route(max)
    }

    /// The token request for request `counter` of `period`, encrypted to the
    /// enclave.
    pub fn request_auth(&mut self, counter: u64, period: u64) -> (r: Result<Vec<u8>, hpke::HpkeError>)
        requires
            counter < old(self).max,
            old(self).credential is Some,
        ensures
            *final(self) == *old(self),
            r matches Ok(env) ==> sealed_to(
                old(self).client.receiver_public_key(),
                env@,
                token_request(old(self).credential->0, counter, period),
            ),
    {
        let token_request = self.request_auth_plain(counter, period);
        self.client.send_hpke(token_request.as_slice())
    }
}

} // verus!
