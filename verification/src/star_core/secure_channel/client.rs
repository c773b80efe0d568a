use vstd::prelude::*;

use crate::crypto::{
    chacha20poly1305_decrypt, chacha20poly1305_open, hpke_base_open, hpke_seal_base, random_bytes,
    x25519_public_key,
};
use crate::ct::bytes::{append_bytes, array_at};
use crate::star_core::secure_channel::server::{envelope_open, NONCE_LEN};

verus! {

/// Every holder of a secret key of `pk` opens the envelope `env` to `plaintext`.
pub open spec fn sealed_to(pk: Seq<u8>, env: Seq<u8>, plaintext: Seq<u8>) -> bool {
    &&& env.len() >= 96
    &&& forall|sk: Seq<u8>|
        sk.len() == 32 && x25519_public_key(sk) == pk ==> #[trigger] envelope_open(sk, env)
            == Some(plaintext)
}

/// What decrypting a reply `nonce(12) || ciphertext` under `key` gives, or
/// `None`.
pub open spec fn reply_open(key: Seq<u8>, reply: Seq<u8>) -> Option<Seq<u8>> {
    if reply.len() < 12 {
        None
    } else {
        chacha20poly1305_open(key, reply.subrange(0, 12), reply.subrange(12, reply.len() as int))
    }
}

/// `chacha20poly1305::aead::Error`, the error that the AEAD reports.
#[verifier::external_body]
fn aead_error() -> (r: chacha20poly1305::aead::Error) {
    chacha20poly1305::aead::Error
}

/// The sending end of the channel, outside the enclave.
pub struct SecureChannelClient {
    receiver_pk: [u8; 32],
}

impl SecureChannelClient {
    /// The receiver's public key.
    pub closed spec fn receiver_public_key(&self) -> Seq<u8> {
        self.receiver_pk@
    }

    /// A sender towards the receiver's 32-byte X25519 public key (any 32 bytes
    /// are a public key).
    pub fn new(receiver_pk_bytes: [u8; 32]) -> (r: Result<Self, hpke::HpkeError>)
        ensures
            r matches Ok(c) && c.receiver_public_key() == receiver_pk_bytes@,
    {
        Ok(Self { receiver_pk: receiver_pk_bytes })
    }

    /// Encrypts `plaintext` to the receiver with HPKE under fresh random `aad`
    /// and `info`, as the envelope `aad(32) || info(32) || enc(32) || ciphertext`.
    pub fn send_hpke(&self, plaintext: &[u8]) -> (r: Result<Vec<u8>, hpke::HpkeError>)
        ensures
            r matches Ok(env) ==> sealed_to(self.receiver_public_key(), env@, plaintext@),
            r matches Ok(env) ==> env@.len() == 32 + 32 + 32 + plaintext@.len() + 16,
    {
        let aad: [u8; 32] = random_bytes();
        let info: [u8; 32] = random_bytes();
        let (enc, ciphertext) = match hpke_seal_base(&self.receiver_pk, &info, &aad, plaintext) {
            Ok(sealed) => sealed,
            Err(e) => return Err(e),
        };
        let mut envelope: Vec<u8> = Vec::new();
        append_bytes(&mut envelope, &aad);
        append_bytes(&mut envelope, &info);
        append_bytes(&mut envelope, &enc);
        append_bytes(&mut envelope, ciphertext.as_slice());
        proof {
            let env = envelope@;
            assert(env.subrange(0, 32) =~= aad@);
            assert(env.subrange(32, 64) =~= info@);
            assert(env.subrange(64, 96) =~= enc@);
            assert(env.subrange(96, env.len() as int) =~= ciphertext@);
            assert forall|sk: Seq<u8>|
                sk.len() == 32 && x25519_public_key(sk) == self.receiver_pk@ implies #[trigger] envelope_open(sk, env)
                    == Some(plaintext@) by {
                assert(hpke_base_open(sk, enc@, info@, aad@, ciphertext@) == Some(plaintext@));
            }
        }
        Ok(envelope)
    }

    /// Sends a fresh random 32-byte key through the channel; returns the
    /// envelope and the key.
    pub fn send_shared_key(&self) -> (r: Result<(Vec<u8>, [u8; 32]), hpke::HpkeError>)
        ensures
            r matches Ok((env, key)) ==> sealed_to(self.receiver_public_key(), env@, key@),
            r matches Ok((env, key)) ==> env@.len() == 32 + 32 + 32 + 32 + 16,
    {
        let shared_key: [u8; 32] = random_bytes();
        match self.send_hpke(&shared_key) {
            Ok(envelope) => Ok((envelope, shared_key)),
            Err(e) => Err(e),
        }
    }

    /// Decrypts a reply `nonce(12) || ciphertext` under the shared key.
    pub fn decrypt_with_shared_key(&self, cipher: &[u8], shared_key: &[u8; 32]) -> (r: Result<
        Vec<u8>,
        chacha20poly1305::aead::Error,
    >)
        ensures
            r is Ok <==> reply_open(shared_key@, cipher@) is Some,
            r matches Ok(p) ==> reply_open(shared_key@, cipher@) == Some(p@),
    {
        if cipher.len() < NONCE_LEN {
            return Err(aead_error());
        }
        let nonce: [u8; 12] = array_at(cipher, 0);
        let ciphertext = &cipher[NONCE_LEN..cipher.len()];
        chacha20poly1305_decrypt(shared_key, &nonce, ciphertext)
    }
}

} // verus!
