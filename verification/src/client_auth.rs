//! The client's side of registration and of token requests: the credential it
//! obtains once, and the budget of token requests that each period allows.

use vstd::prelude::*;

use crate::ct::bytes::array_at;
use crate::star_core::client::{token_request, User};
use crate::star_core::cred::Credential;
use crate::star_core::secure_channel::client::{reply_open, sealed_to};
use crate::tools::input::{base64_padded_text_decode, base64_url_decode, decode_base64_padded, url_safe_encode};
use vstd::utf8::encode_utf8;

verus! {

/// Why a step of registration failed.
#[derive(Debug, Clone, PartialEq, Eq)]
pub enum RegisterError {
    /// The text is not padded URL-safe base64.
    Base64(String),
    /// The public key does not have 32 bytes.
    PublicKeyLength,
    /// The secure channel could not be set up or could not seal.
    Channel,
    /// The answer does not decrypt to a credential.
    Credential,
}

/// Why a token request was refused.
#[derive(Debug, Clone, PartialEq, Eq)]
pub enum TokenRequestError {
    /// All `max` requests of `period` were made already.
    LimitReached { max: u64, period: u64 },
    /// The request could not be sealed to the enclave.
    Channel,
}

/// The enclave's public key, from the text that the public-key endpoint
/// answers: URL-safe base64 of 32 bytes, white space around it allowed.
pub fn public_key_from_text(text: &str) -> (r: Result<[u8; 32], RegisterError>)
    ensures
        match base64_padded_text_decode(text@) {
            None => r matches Err(RegisterError::Base64(_)),
            Some(v) => if v.len() == 32 {
                r matches Ok(k) && k@ == v
            } else {
                r == Err::<[u8; 32], RegisterError>(RegisterError::PublicKeyLength)
            },
        },
{
    let bytes = match decode_base64_padded(text) {
        Ok(bytes) => bytes,
        Err(e) => return Err(RegisterError::Base64(e)),
    };
    if bytes.len() != 32 {
        return Err(RegisterError::PublicKeyLength);
    }
    let key: [u8; 32] = array_at(bytes.as_slice(), 0);
    assert(key@ =~= bytes@);
    Ok(key)
}

/// The registration request of a user: the envelope that carries a fresh
/// shared key to the enclave, as URL-safe base64, and that key.
pub fn registration_request(user: &User) -> (r: Result<(String, [u8; 32]), RegisterError>)
    ensures
        r matches Ok((text, key)) ==> base64_url_decode(encode_utf8(text@)) matches Some(env)
            && sealed_to(user.client.receiver_public_key(), env, key@),
        r matches Err(e) ==> e == RegisterError::Channel,
{
    match user.request_credential() {
        Ok((envelope, key)) => {
            let text = url_safe_encode(envelope.as_slice());
            assert(base64_url_decode(encode_utf8(text@)) == Some(envelope@));
            Ok((text, key))
        },
        Err(_) => Err(RegisterError::Channel),
    }
}

/// The enclave's registration answer `text` can be received under
/// `shared_key`: when it is base64, it opens to at least the 64 bytes of a
/// credential.
pub open spec fn registration_opens(text: Seq<char>, shared_key: Seq<u8>) -> bool {
    base64_padded_text_decode(text) matches Some(cipher) ==> (reply_open(shared_key, cipher) matches Some(
        p,
    ) && p.len() >= 64)
}

/// Stores the credential that the enclave's answer (URL-safe base64 of
/// `nonce || ciphertext` under the shared key) carries. Text that is not
/// base64 is refused; an answer that is base64 must open to a credential.
pub fn receive_registration(user: &mut User, text: &str, shared_key: &[u8; 32]) -> (r: Result<
    Credential,
    RegisterError,
>)
    requires
        registration_opens(text@, shared_key@),
    ensures
        final(user).client == old(user).client,
        final(user).max == old(user).max,
        match base64_padded_text_decode(text@) {
            None => r matches Err(RegisterError::Base64(_)) && final(user).credential == old(
                user,
            ).credential,
            Some(cipher) => match reply_open(shared_key@, cipher) {
                Some(p) => r matches Ok(c) && final(user).credential == Some(c) && c.uid@
                    == p.subrange(0, 32) && c.code@ == p.subrange(32, 64),
                None => false,
            },
        },
{
    let cipher = match decode_base64_padded(text) {
        Ok(cipher) => cipher,
        Err(e) => return Err(RegisterError::Base64(e)),
    };
    match user.receive_credential(cipher.as_slice(), shared_key) {
        Some(c) => Ok(c),
        None => vstd::pervasive::unreached(),
    }
}

/// Like `receive_registration`, for any answer: one that is base64 but does
/// not open to a credential is refused with `RegisterError::Credential`, and
/// nothing is stored.
pub fn try_receive_registration(user: &mut User, text: &str, shared_key: &[u8; 32]) -> (r: Result<
    Credential,
    RegisterError,
>)
    ensures
        final(user).client == old(user).client,
        final(user).max == old(user).max,
        match base64_padded_text_decode(text@) {
            None => r matches Err(RegisterError::Base64(_)) && final(user).credential == old(
                user,
            ).credential,
            Some(cipher) => match reply_open(shared_key@, cipher) {
                Some(p) if p.len() >= 64 => r matches Ok(c) && final(user).credential == Some(c)
                    && c.uid@ == p.subrange(0, 32) && c.code@ == p.subrange(32, 64),
                _ => r == Err::<Credential, RegisterError>(RegisterError::Credential)
                    && final(user).credential == old(user).credential,
            },
        },
{
    let cipher = match decode_base64_padded(text) {
        Ok(cipher) => cipher,
        Err(e) => return Err(RegisterError::Base64(e)),
    };
    match user.client.decrypt_with_shared_key(cipher.as_slice(), shared_key) {
        Ok(plain) => {
            if plain.len() < 64 {
                return Err(RegisterError::Credential);
            }
        },
        Err(_) => return Err(RegisterError::Credential),
    }
    receive_registration(user, text, shared_key)
}

/// What the client keeps between token requests: its user, the period of the
/// last request, and how many requests that period has seen.
pub struct StarAuthState {
    pub user: User,
    pub counter: u64,
    pub period: u64,
}

/// The number of requests already made in `period`, seen from a state whose
/// last request fell in `last_period` after `counter` requests.
pub open spec fn used_in(counter: u64, last_period: u64, period: u64) -> u64 {
    if last_period == period {
        counter
    } else {
        0
    }
}

/// The request number that a call for `period` spends, from a state that
/// made `before.0` requests in the period `before.1`; `None` when the budget
/// `max` of the period is used up.
pub open spec fn spent(before: (u64, u64), period: u64, max: u64) -> Option<u64> {
    let used = used_in(before.0, before.1, period);
    if used >= max {
        None
    } else {
        Some(used)
    }
}

/// How a call for `period` moves the count of requests and the period it
/// belongs to.
pub open spec fn auth_step(before: (u64, u64), period: u64, max: u64, after: (u64, u64)) -> bool {
    let used = used_in(before.0, before.1, period);
    &&& after.1 == period
    &&& after.0 == (if used >= max {
        used
    } else {
        (used + 1) as u64
    })
}

impl StarAuthState {
    /// A registered user, with no request made yet in `period`.
    pub fn new(user: User, period: u64) -> (r: Self)
        ensures
            r.user == user,
            r.counter == 0,
            r.period == period,
    {
        Self { user, counter: 0, period }
    }

    /// Completes a registration: stores the credential that the enclave's
    /// answer `text` carries under `shared_key`, and starts counting requests
    /// in `period` from zero. Text that is not base64 is refused; an answer
    /// that is base64 must open to a credential.
    pub fn register(user: User, text: &str, shared_key: &[u8; 32], period: u64) -> (r: Result<
        Self,
        RegisterError,
    >)
        requires
            registration_opens(text@, shared_key@),
        ensures
            match base64_padded_text_decode(text@) {
                None => r matches Err(RegisterError::Base64(_)),
                Some(cipher) => match reply_open(shared_key@, cipher) {
                    Some(p) => r matches Ok(s) && {
                        &&& s.counter == 0
                        &&& s.period == period
                        &&& s.user.client == user.client
                        &&& s.user.max == user.max
                        &&& s.user.credential matches Some(c) && c.uid@ == p.subrange(0, 32) && c.code@
                            == p.subrange(32, 64)
                    },
                    None => false,
                },
            },
    {
        let mut user = user;
        match receive_registration(&mut user, text, shared_key) {
            Ok(_) => Ok(Self::new(user, period)),
            Err(e) => Err(e),
        }
    }

    /// Like `register`, for any answer: one that is base64 but does not open
    /// to a credential is refused with `RegisterError::Credential`.
    pub fn try_register(user: User, text: &str, shared_key: &[u8; 32], period: u64) -> (r: Result<
        Self,
        RegisterError,
    >)
        ensures
            match base64_padded_text_decode(text@) {
                None => r matches Err(RegisterError::Base64(_)),
                Some(cipher) => match reply_open(shared_key@, cipher) {
                    Some(p) if p.len() >= 64 => r matches Ok(s) && {
                        &&& s.counter == 0
                        &&& s.period == period
                        &&& s.user.client == user.client
                        &&& s.user.max == user.max
                        &&& s.user.credential matches Some(c) && c.uid@ == p.subrange(0, 32) && c.code@
                            == p.subrange(32, 64)
                    },
                    _ => r == Err::<Self, RegisterError>(RegisterError::Credential),
                },
            },
    {
        let cipher = match decode_base64_padded(text) {
            Ok(cipher) => cipher,
            Err(e) => return Err(RegisterError::Base64(e)),
        };
        match user.client.decrypt_with_shared_key(cipher.as_slice(), shared_key) {
            Ok(plain) => {
                if plain.len() < 64 {
                    return Err(RegisterError::Credential);
                }
            },
            Err(_) => return Err(RegisterError::Credential),
        }
        Self::register(user, text, shared_key, period)
    }

    /// The number of token requests that a period allows.
    pub open spec fn budget(&self) -> u64 {
        self.user.max
    }

    /// At most the budget is used in the current period.
    pub open spec fn wf(&self) -> bool {
        self.counter <= self.user.max
    }

    /// Builds the next token request of `period`: the first request of a new
    /// period starts the count again; once the budget is used up, the request
    /// is refused until the period changes.
    pub fn token_request(&mut self, period: u64) -> (r: Result<Vec<u8>, TokenRequestError>)
        requires
            old(self).user.credential is Some,
        ensures
            final(self).user == old(self).user,
            auth_step(
                (old(self).counter, old(self).period),
                period,
                old(self).user.max,
                (final(self).counter, final(self).period),
            ),
            old(self).wf() ==> final(self).wf(),
            match spent((old(self).counter, old(self).period), period, old(self).user.max) {
                None => r == Err::<Vec<u8>, TokenRequestError>(
                    TokenRequestError::LimitReached { max: old(self).user.max, period },
                ),
                Some(count) => {
                    &&& r matches Ok(env) ==> sealed_to(
                        old(self).user.client.receiver_public_key(),
                        env@,
                        token_request(old(self).user.credential->0, count, period),
                    )
                    &&& r matches Err(e) ==> e == TokenRequestError::Channel
                },
            },
    {
        if self.period != period {
            self.period = period;
            self.counter = 0;
        }
        if self.counter >= self.user.max {
            return Err(TokenRequestError::LimitReached { max: self.user.max, period });
        }
        let counter = self.counter;
        self.counter = counter + 1;
        match self.user.request_auth(counter, period) {
            Ok(env) => Ok(env),
            Err(_) => Err(TokenRequestError::Channel),
        }
    }
}

} // verus!
