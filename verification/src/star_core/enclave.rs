use vstd::prelude::*;

use crate::crypto::{random_bytes, x25519_public_key};
use crate::ct::bytes::{array_at, Long, Short};
use crate::ct::time::{be_bytes_u64, u64_to_be};
use crate::star_core::cred::{credential_accepts, credential_code, Credential};
use crate::star_core::secure_channel::server::{
    envelope_open, reply_carries, split_hpke_envelope, SecureChannelServer,
};
use crate::star_core::token::{token_value, Token};

verus! {

/// Length of a plain token request: credential (64) || count (8) || period (8).
pub const TOKEN_REQUEST_LEN: usize = 80;

/// What the enclave answers a plain token request: the token of the
/// credential's identifier for the requested count and period when the
/// credential is accepted, the single byte 0 otherwise.
pub open spec fn token_response(
    sk: Seq<u8>,
    max_tickets: Seq<u8>,
    request: Seq<u8>,
    current_period: Seq<u8>,
) -> Seq<u8> {
    if request.len() < 80 {
        seq![0u8]
    } else {
        let uid = request.subrange(0, 32);
        let code = request.subrange(32, 64);
        let count = request.subrange(64, 72);
        let period = request.subrange(72, 80);
        if credential_accepts(uid, code, period, count, current_period, max_tickets, sk) {
            token_value(uid, period, count)
        } else {
            seq![0u8]
        }
    }
}

/// The issuing side inside the enclave: the channel key pair, the number of
/// tokens a credential may obtain per period, and the MAC key.
pub struct Enclave {
    cipher_receiver: SecureChannelServer,
    max_tickets: Short,
    sk: Long,
}

impl Enclave {
    /// The MAC key.
    pub closed spec fn mac_key(&self) -> Seq<u8> {
        self.sk@
    }

    /// The per-period limit, as big-endian bytes.
    pub closed spec fn max_tickets(&self) -> Seq<u8> {
        self.max_tickets@
    }

    /// The channel's secret key.
    pub closed spec fn channel_secret(&self) -> Seq<u8> {
        self.cipher_receiver.sk@
    }

    /// The channel's public key.
    pub closed spec fn channel_public(&self) -> Seq<u8> {
        self.cipher_receiver.pk@
    }

    /// The channel's public key is that of its secret key.
    pub closed spec fn wf(&self) -> bool {
        self.cipher_receiver.wf()
    }

    pub proof fn lemma_wf(&self)
        requires
            self.wf(),
        ensures
            self.channel_public() == x25519_public_key(self.channel_secret()),
            self.channel_secret().len() == 32,
            self.channel_public().len() == 32,
            self.mac_key().len() == 32,
            self.max_tickets().len() == 8,
    {
    }

    /// An enclave with the MAC key `sk_bytes`, the channel secret key
    /// `cipher_receiver` and a limit of `max_tickets` tokens per period.
    pub fn new(max_tickets: u32, sk_bytes: Long, cipher_receiver: Long) -> (r: Result<
        Self,
        hpke::HpkeError,
    >)
        ensures
            r matches Ok(e) && {
                &&& e.wf()
                &&& e.mac_key() == sk_bytes@
                &&& e.channel_secret() == cipher_receiver@
                &&& e.max_tickets() == be_bytes_u64(max_tickets as u64)
            },
    {
        let cipher_receiver = match SecureChannelServer::new(cipher_receiver) {
            Ok(receiver) => receiver,
            Err(e) => return Err(e),
        };
        let max_tickets: Short = u64_to_be(max_tickets as u64);
        Ok(Self { cipher_receiver, max_tickets, sk: sk_bytes })
    }

    /// An enclave with fresh random keys and a limit of zero tokens.
    pub fn default() -> (r: Self)
        ensures
            r.wf(),
            r.max_tickets() == be_bytes_u64(0),
    {
        let cipher_receiver: Long = random_bytes();
        let sk: Long = random_bytes();
        match Self::new(0, sk, cipher_receiver) {
            Ok(e) => e,
            Err(_) => vstd::pervasive::unreached(),
        }
    }

    /// The channel's public key, for senders.
    pub fn public_key(&self) -> (r: [u8; 32])
        ensures
            r@ == self.channel_public(),
    {
        self.cipher_receiver.public_key()
    }

    /// Opens an HPKE-protected token request and answers it; `Err(1)` when the
    /// envelope does not open.
    pub fn issue_token(&self, cipher: &[u8], current_period: Short) -> (r: Result<Vec<u8>, u8>)
        ensures
            envelope_open(self.channel_secret(), cipher@) is None <==> r == Err::<Vec<u8>, u8>(1u8),
            envelope_open(self.channel_secret(), cipher@) matches Some(plain) ==> (r matches Ok(t)
                && t@ == token_response(self.mac_key(), self.max_tickets(), plain, current_period@)),
    {
        let (aad, info, enc, ciphertext) = match split_hpke_envelope(cipher) {
            Some(parts) => parts,
            None => return Err(1),
        };
        let plain = match self.cipher_receiver.receive_hpke(enc, info, aad, ciphertext) {
            Ok(plain) => plain,
            Err(_) => return Err(1),
        };
        Ok(self.issue_token_plain(plain.as_slice(), current_period))
    }

    /// Answers a decrypted token request `credential(64) || count(8) ||
    /// period(8)`: the token when the credential is accepted, `[0]` otherwise.
    pub fn issue_token_plain(&self, request: &[u8], current_period: Short) -> (r: Vec<u8>)
        ensures
            r@ == token_response(self.mac_key(), self.max_tickets(), request@, current_period@),
    {
        if request.len() < TOKEN_REQUEST_LEN {
            return vec![0u8];
        }
        let cred = Credential::from_bytes(request);
        let count: Short = array_at(request, 64);
        let period: Short = array_at(request, 72);
        if !cred.is_valid(period, count, current_period, self.max_tickets, self.sk) {
            return vec![0u8];
        }
        let token = Token::random(cred.uid, period, count);
        token.to_bytes()
    }

    /// Issues a fresh credential and returns it encrypted under the key that
    /// the envelope `cipher` carries (empty when that fails).
    pub fn issue_cred(&self, cipher: &[u8]) -> (r: Vec<u8>)
        requires
            self.wf(),
        ensures
            r@.len() > 0 ==> exists|key: Seq<u8>, cred: Seq<u8>|
                #![trigger reply_carries(key, r@, cred)]
                envelope_open(self.channel_secret(), cipher@) == Some(key) && reply_carries(key, r@, cred)
                    && cred.len() == 64 && cred.subrange(32, 64) == credential_code(
                    self.mac_key(),
                    cred.subrange(0, 32),
                ),
            (envelope_open(self.channel_secret(), cipher@) matches Some(key) && key.len() == 32) ==> r@.len()
                > 0,
            r@.len() > 0 ==> (envelope_open(self.channel_secret(), cipher@) matches Some(key) && key.len()
                == 32),
            r@.len() == 0 ==> match envelope_open(self.channel_secret(), cipher@) {
                None => true,
                Some(key) => key.len() != 32,
            },
    {
        let cred = self.issue_cred_plain();
        self.cipher_receiver.respond_cipher(cred.as_slice(), cipher)
    }

    /// Issues a fresh credential: a random identifier and its MAC, encoded as
    /// `uid || code`.
    pub fn issue_cred_plain(&self) -> (r: Vec<u8>)
        ensures
            r@.len() == 64,
            r@.subrange(32, 64) == credential_code(self.mac_key(), r@.subrange(0, 32)),
    {
        let cred = Credential::random(self.sk);
        let bytes = cred.to_bytes();
        proof {
            assert(bytes@.subrange(0, 32) =~= cred.uid@);
            assert(bytes@.subrange(32, 64) =~= cred.code@);
        }
        bytes
    }
}

} // verus!
