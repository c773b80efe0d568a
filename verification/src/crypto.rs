//! The cryptographic primitives that the protocol calls: HMAC-SHA256, X25519
//! keys, HPKE (X25519, HKDF-SHA256, ChaCha20-Poly1305), ChaCha20-Poly1305 and
//! the operating system's random number generator.
//!
//! Keys travel as plain byte arrays; each primitive is reached through one
//! small wrapper whose contract names its result.

use chacha20poly1305::aead::{Aead, KeyInit};
use hmac::Mac;
use hpke::kem::Kem;
use hpke::{Deserializable, Serializable};
use rand::RngCore;
use vstd::prelude::*;

verus! {

/// `hpke::HpkeError`, carried through as an opaque value.
#[verifier::external_type_specification]
#[verifier::external_body]
pub struct ExHpkeError(hpke::HpkeError);

/// `chacha20poly1305::aead::Error`, carried through as an opaque value.
#[verifier::external_type_specification]
#[verifier::external_body]
pub struct ExAeadError(chacha20poly1305::aead::Error);

/// HMAC-SHA256 of `msg` under `key`.
pub uninterp spec fn hmac_sha256(key: Seq<u8>, msg: Seq<u8>) -> Seq<u8>;

/// The X25519 public key of the 32-byte secret key `sk`.
pub uninterp spec fn x25519_public_key(sk: Seq<u8>) -> Seq<u8>;

/// What HPKE (base mode, X25519-HKDF-SHA256, HKDF-SHA256, ChaCha20-Poly1305)
/// recovers from the first ciphertext of a context, or `None` when it fails.
pub uninterp spec fn hpke_base_open(
    sk: Seq<u8>,
    enc: Seq<u8>,
    info: Seq<u8>,
    aad: Seq<u8>,
    ciphertext: Seq<u8>,
) -> Option<Seq<u8>>;

/// The same in auth mode, with the sender's public key `sender_pk`.
pub uninterp spec fn hpke_auth_open(
    sk: Seq<u8>,
    sender_pk: Seq<u8>,
    enc: Seq<u8>,
    info: Seq<u8>,
    aad: Seq<u8>,
    ciphertext: Seq<u8>,
) -> Option<Seq<u8>>;

/// ChaCha20-Poly1305 encryption (empty associated data), or `None` when the
/// message is too long for the cipher.
pub uninterp spec fn chacha20poly1305_seal(key: Seq<u8>, nonce: Seq<u8>, plaintext: Seq<u8>) -> Option<Seq<u8>>;

/// ChaCha20-Poly1305 decryption (empty associated data), or `None` when the
/// ciphertext does not authenticate.
pub uninterp spec fn chacha20poly1305_open(key: Seq<u8>, nonce: Seq<u8>, ciphertext: Seq<u8>) -> Option<Seq<u8>>;

/// `N` bytes from the operating system's generator (`rand::rngs::OsRng`,
/// `RngCore::fill_bytes`). Nothing is claimed of the bytes.
#[verifier::external_body]
pub(crate) fn random_bytes<const N: usize>() -> (r: [u8; N]) {
    let mut bytes = [0u8; N];
    rand::rngs::OsRng.fill_bytes(&mut bytes);
    bytes
}

/// `hmac::Hmac<sha2::Sha256>`: `new_from_slice(key)` (which accepts keys of
/// any length), `update(msg)`, `finalize`. The result is the named MAC.
#[verifier::external_body]
pub(crate) fn hmac_sha256_bytes(key: &[u8], msg: &[u8]) -> (r: [u8; 32])
    ensures
        r@ == hmac_sha256(key@, msg@),
{
    let mut mac = <hmac::Hmac::<sha2::Sha256> as Mac>::new_from_slice(key).expect("HMAC takes keys of any length");
    mac.update(msg);
    mac.finalize().into_bytes().into()
}

/// `X25519HkdfSha256::sk_to_pk` of the private key read by `from_bytes` (which
/// accepts any 32 bytes).
#[verifier::external_body]
pub(crate) fn x25519_public_key_bytes(sk: &[u8; 32]) -> (r: [u8; 32])
    ensures
        r@ == x25519_public_key(sk@),
{
    let sk = <hpke::kem::X25519HkdfSha256 as Kem>::PrivateKey::from_bytes(sk).expect("32-byte X25519 key");
    <hpke::kem::X25519HkdfSha256 as Kem>::sk_to_pk(&sk).to_bytes().into()
}

/// `X25519HkdfSha256::gen_keypair` with `OsRng`: a fresh secret key and its
/// public key (the key pair is random; the public key is that of the secret).
#[verifier::external_body]
pub(crate) fn x25519_generate_keypair() -> (r: ([u8; 32], [u8; 32]))
    ensures
        r.1@ == x25519_public_key(r.0@),
{
    let (sk, pk) = <hpke::kem::X25519HkdfSha256 as Kem>::gen_keypair(&mut rand::rngs::OsRng);
    (sk.to_bytes().into(), pk.to_bytes().into())
}

/// `hpke::setup_sender` in base mode towards `receiver_pk` with `OsRng`, then
/// `seal(plaintext, aad)` on the fresh context. Returns the encapsulated key and
/// the ciphertext; the holder of any secret key of `receiver_pk` opens the
/// ciphertext to `plaintext` (HPKE correctness), and the ciphertext is the
/// plaintext's length plus the 16-byte ChaCha20-Poly1305 tag. The outcome is
/// random.
#[verifier::external_body]
pub(crate) fn hpke_seal_base(
    receiver_pk: &[u8; 32],
    info: &[u8],
    aad: &[u8],
    plaintext: &[u8],
) -> (r: Result<([u8; 32], Vec<u8>), hpke::HpkeError>)
    ensures
        r matches Ok((enc, ciphertext)) ==> ciphertext@.len() == plaintext@.len() + 16,
        r matches Ok((enc, ciphertext)) ==> forall|sk: Seq<u8>|
            sk.len() == 32 && x25519_public_key(sk) == receiver_pk@ ==> #[trigger] hpke_base_open(
                sk,
                enc@,
                info@,
                aad@,
                ciphertext@,
            ) == Some(plaintext@),
{
    let pk = <hpke::kem::X25519HkdfSha256 as Kem>::PublicKey::from_bytes(receiver_pk)?;
    let (enc, mut ctx) = hpke::setup_sender::<
        hpke::aead::ChaCha20Poly1305,
        hpke::kdf::HkdfSha256,
        hpke::kem::X25519HkdfSha256,
        _,
    >(&hpke::OpModeS::Base, &pk, info, &mut rand::rngs::OsRng)?;
    let ciphertext = ctx.seal(plaintext, aad)?;
    Ok((enc.to_bytes().into(), ciphertext))
}

/// `EncappedKey::from_bytes(enc)`, `hpke::setup_receiver` in base mode with
/// the secret key `sk`, then `open(ciphertext, aad)` on the fresh context.
#[verifier::external_body]
pub(crate) fn hpke_open_base_bytes(
    sk: &[u8; 32],
    enc: &[u8],
    info: &[u8],
    aad: &[u8],
    ciphertext: &[u8],
) -> (r: Result<Vec<u8>, hpke::HpkeError>)
    ensures
        r is Ok <==> hpke_base_open(sk@, enc@, info@, aad@, ciphertext@) is Some,
        r matches Ok(p) ==> hpke_base_open(sk@, enc@, info@, aad@, ciphertext@) == Some(p@),
{
    let sk = <hpke::kem::X25519HkdfSha256 as Kem>::PrivateKey::from_bytes(sk)?;
    let enc = <hpke::kem::X25519HkdfSha256 as Kem>::EncappedKey::from_bytes(enc)?;
    let mut ctx = hpke::setup_receiver::<
        hpke::aead::ChaCha20Poly1305,
        hpke::kdf::HkdfSha256,
        hpke::kem::X25519HkdfSha256,
    >(&hpke::OpModeR::Base, &sk, &enc, info)?;
    ctx.open(ciphertext, aad)
}

/// The same in auth mode (`OpModeR::Auth` with the sender's public key).
#[verifier::external_body]
pub(crate) fn hpke_open_auth_bytes(
    sk: &[u8; 32],
    sender_pk: &[u8; 32],
    enc: &[u8],
    info: &[u8],
    aad: &[u8],
    ciphertext: &[u8],
) -> (r: Result<Vec<u8>, hpke::HpkeError>)
    ensures
        r is Ok <==> hpke_auth_open(sk@, sender_pk@, enc@, info@, aad@, ciphertext@) is Some,
        r matches Ok(p) ==> hpke_auth_open(sk@, sender_pk@, enc@, info@, aad@, ciphertext@) == Some(p@),
{
    let sk = <hpke::kem::X25519HkdfSha256 as Kem>::PrivateKey::from_bytes(sk)?;
    let enc = <hpke::kem::X25519HkdfSha256 as Kem>::EncappedKey::from_bytes(enc)?;
    let sender_pk = <hpke::kem::X25519HkdfSha256 as Kem>::PublicKey::from_bytes(sender_pk)?;
    let mut ctx = hpke::setup_receiver::<
        hpke::aead::ChaCha20Poly1305,
        hpke::kdf::HkdfSha256,
        hpke::kem::X25519HkdfSha256,
    >(&hpke::OpModeR::Auth(sender_pk), &sk, &enc, info)?;
    ctx.open(ciphertext, aad)
}

/// `ChaCha20Poly1305::new(key).encrypt(nonce, plaintext)`. The ciphertext is
/// the named one, and decrypting it under the same key and nonce gives the
/// plaintext back (AEAD correctness). The cipher refuses only a plaintext of
/// `u32::MAX` 64-byte blocks or more, so a shorter one is always encrypted.
#[verifier::external_body]
pub(crate) fn chacha20poly1305_encrypt(
    key: &[u8; 32],
    nonce: &[u8; 12],
    plaintext: &[u8],
) -> (r: Result<Vec<u8>, chacha20poly1305::aead::Error>)
    ensures
        r is Ok <==> chacha20poly1305_seal(key@, nonce@, plaintext@) is Some,
        r matches Ok(c) ==> chacha20poly1305_seal(key@, nonce@, plaintext@) == Some(c@),
        r matches Ok(c) ==> chacha20poly1305_open(key@, nonce@, c@) == Some(plaintext@),
        plaintext@.len() < 274877906880 ==> r is Ok,
{
    let aead = chacha20poly1305::ChaCha20Poly1305::new(key.into());
    aead.encrypt(nonce.into(), plaintext)
}

/// `ChaCha20Poly1305::new(key).decrypt(nonce, ciphertext)`.
#[verifier::external_body]
pub(crate) fn chacha20poly1305_decrypt(
    key: &[u8; 32],
    nonce: &[u8; 12],
    ciphertext: &[u8],
) -> (r: Result<Vec<u8>, chacha20poly1305::aead::Error>)
    ensures
        r is Ok <==> chacha20poly1305_open(key@, nonce@, ciphertext@) is Some,
        r matches Ok(p) ==> chacha20poly1305_open(key@, nonce@, ciphertext@) == Some(p@),
{
    let aead = chacha20poly1305::ChaCha20Poly1305::new(key.into());
    aead.decrypt(nonce.into(), ciphertext)
}

} // verus!
