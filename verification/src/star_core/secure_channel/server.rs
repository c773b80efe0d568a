use vstd::prelude::*;

use crate::crypto::{
    chacha20poly1305_encrypt, chacha20poly1305_open, chacha20poly1305_seal, hpke_base_open,
    hpke_open_base_bytes, random_bytes, x25519_generate_keypair, x25519_public_key,
    x25519_public_key_bytes,
};
use crate::ct::bytes::{append_bytes, array_at};

verus! {

/// Length of each of the three fixed fields of an HPKE envelope.
pub const AAD_LEN: usize = 32;
pub const INFO_LEN: usize = 32;
pub const ENC_LEN: usize = 32;

/// Length of the nonce in front of a reply.
pub const NONCE_LEN: usize = 12;

/// The fields of an envelope `aad(32) || info(32) || enc(32) || ciphertext`.
pub open spec fn envelope_aad(env: Seq<u8>) -> Seq<u8> {
    env.subrange(0, 32)
}

pub open spec fn envelope_info(env: Seq<u8>) -> Seq<u8> {
    env.subrange(32, 64)
}

pub open spec fn envelope_enc(env: Seq<u8>) -> Seq<u8> {
    env.subrange(64, 96)
}

pub open spec fn envelope_ciphertext(env: Seq<u8>) -> Seq<u8> {
    env.subrange(96, env.len() as int)
}

/// What the holder of `sk` recovers from the envelope `env`, or `None`.
pub open spec fn envelope_open(sk: Seq<u8>, env: Seq<u8>) -> Option<Seq<u8>> {
    if env.len() < 96 {
        None
    } else {
        hpke_base_open(
            sk,
            envelope_enc(env),
            envelope_info(env),
            envelope_aad(env),
            envelope_ciphertext(env),
        )
    }
}

/// A reply `nonce(12) || ciphertext` carries `response` under `key`.
pub open spec fn reply_carries(key: Seq<u8>, reply: Seq<u8>, response: Seq<u8>) -> bool {
    &&& reply.len() >= 12
    &&& chacha20poly1305_seal(key, reply.subrange(0, 12), response) == Some(
        reply.subrange(12, reply.len() as int),
    )
    &&& chacha20poly1305_open(key, reply.subrange(0, 12), reply.subrange(12, reply.len() as int))
        == Some(response)
}

/// The receiving end of the channel, inside the enclave: an X25519 key pair.
pub struct SecureChannelServer {
    pub sk: [u8; 32],
    pub pk: [u8; 32],
}

/// Splits `aad(32) || info(32) || enc(32) || ciphertext`; `None` when the
/// envelope is shorter than its three fixed fields.
pub fn split_hpke_envelope(cipher: &[u8]) -> (r: Option<(&[u8], &[u8], &[u8], &[u8])>)
    ensures
        cipher@.len() < 96 <==> r is None,
        r matches Some((aad, info, enc, ciphertext)) ==> {
            &&& aad@ == envelope_aad(cipher@)
            &&& info@ == envelope_info(cipher@)
            &&& enc@ == envelope_enc(cipher@)
            &&& ciphertext@ == envelope_ciphertext(cipher@)
        },
{
    let min_len = AAD_LEN + INFO_LEN + ENC_LEN;
    if cipher.len() < min_len {
        return None;
    }
    let aad = &cipher[0..AAD_LEN];
    let info = &cipher[AAD_LEN..AAD_LEN + INFO_LEN];
    let enc = &cipher[AAD_LEN + INFO_LEN..min_len];
    let ciphertext = &cipher[min_len..cipher.len()];
    Some((aad, info, enc, ciphertext))
}

impl SecureChannelServer {
    /// The public key is the one of the secret key.
    pub open spec fn wf(&self) -> bool {
        self.pk@ == x25519_public_key(self.sk@)
    }

    /// Restores a receiver from its 32-byte X25519 secret key.
    pub fn new(sk_bytes: [u8; 32]) -> (r: Result<Self, hpke::HpkeError>)
        ensures
            r matches Ok(s) && s.sk == sk_bytes && s.wf(),
    {
        let pk = x25519_public_key_bytes(&sk_bytes);
        Ok(Self { sk: sk_bytes, pk })
    }

    /// A fresh random key pair.
    pub fn random() -> (r: Self)
        ensures
            r.wf(),
    {
        let (sk, pk) = x25519_generate_keypair();
        Self { sk, pk }
    }

    /// The public key to advertise to senders.
    pub fn public_key(&self) -> (r: [u8; 32])
        ensures
            r == self.pk,
    {
        self.pk
    }

    /// Opens an HPKE ciphertext (base mode).
    pub fn receive_hpke(
        &self,
        enc: &[u8],
        info: &[u8],
        aad: &[u8],
        ciphertext: &[u8],
    ) -> (r: Result<Vec<u8>, hpke::HpkeError>)
        ensures
            r is Ok <==> hpke_base_open(self.sk@, enc@, info@, aad@, ciphertext@) is Some,
            r matches Ok(p) ==> hpke_base_open(self.sk@, enc@, info@, aad@, ciphertext@) == Some(p@),
    {
        hpke_open_base_bytes(&self.sk, enc, info, aad, ciphertext)
    }

    /// Recovers the 32-byte key that the envelope `cipher` carries and returns
    /// `response` encrypted under it, as `nonce(12) || ciphertext` with a fresh
    /// random nonce. Returns an empty vector when the envelope does not open to
    /// a 32-byte key or the response cannot be encrypted.
    pub fn respond_cipher(&self, response: &[u8], cipher: &[u8]) -> (r: Vec<u8>)
        ensures
            r@.len() > 0 ==> (envelope_open(self.sk@, cipher@) matches Some(key) && key.len() == 32
                && reply_carries(key, r@, response@)),
            r@.len() == 0 ==> match envelope_open(self.sk@, cipher@) {
                None => true,
                Some(key) => key.len() != 32 || exists|nonce: Seq<u8>|
                    nonce.len() == 12 && #[trigger] chacha20poly1305_seal(key, nonce, response@) is None,
            },
            response@.len() < 274877906880 ==> (envelope_open(self.sk@, cipher@) matches Some(key)
                && key.len() == 32 ==> r@.len() > 0),
    {
        let (aad, info, enc, ciphertext) = match split_hpke_envelope(cipher) {
            Some(parts) => parts,
            None => return Vec::new(),
        };
        let key = match self.receive_hpke(enc, info, aad, ciphertext) {
            Ok(key) => key,
            Err(_) => return Vec::new(),
        };
        respond_with_key(response, key.as_slice())
    }
}

/// `response` encrypted under a 32-byte key, as `nonce(12) || ciphertext`
/// with a fresh random nonce; empty when the key does not have 32 bytes or the
/// response cannot be encrypted.
pub fn respond_with_key(response: &[u8], key: &[u8]) -> (r: Vec<u8>)
    ensures
        r@.len() > 0 ==> key@.len() == 32 && reply_carries(key@, r@, response@),
        r@.len() == 0 ==> key@.len() != 32 || exists|nonce: Seq<u8>|
            nonce.len() == 12 && #[trigger] chacha20poly1305_seal(key@, nonce, response@) is None,
        key@.len() == 32 && response@.len() < 274877906880 ==> r@.len() > 0,
{
    if key.len() != 32 {
        return Vec::new();
    }
    let k: [u8; 32] = array_at(key, 0);
    assert(k@ =~= key@);
    let nonce: [u8; 12] = random_bytes();
    let sealed = match chacha20poly1305_encrypt(&k, &nonce, response) {
        Ok(sealed) => sealed,
        Err(_) => return Vec::new(),
    };
    let mut result: Vec<u8> = Vec::new();
    append_bytes(&mut result, &nonce);
    append_bytes(&mut result, sealed.as_slice());
    proof {
        assert(result@.subrange(0, 12) =~= nonce@);
        assert(result@.subrange(12, result@.len() as int) =~= sealed@);
    }
    result
}

} // verus!
