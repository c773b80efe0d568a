use vstd::prelude::*;

use crate::crypto::{hmac_sha256, hmac_sha256_bytes, random_bytes};
use crate::ct::bytes::{append_bytes, array_at, Long, Short};
use crate::ct::cmp::{ct_eq, ct_lt, lex_lt};

verus! {

/// A credential: a user identifier and the enclave's MAC over it.
#[derive(Copy, Clone)]
pub struct Credential {
    pub uid: Long,
    pub code: Long,
}

/// The code that the key `sk` gives the identifier `uid`.
pub open spec fn credential_code(sk: Seq<u8>, uid: Seq<u8>) -> Seq<u8> {
    hmac_sha256(sk, uid)
}

/// The 64-byte encoding of a credential: `uid || code`.
pub open spec fn credential_bytes(uid: Seq<u8>, code: Seq<u8>) -> Seq<u8> {
    uid + code
}

/// Whether a credential presented with `count` for `period` is accepted when
/// the current period is `current_period` and at most `max_count` requests are
/// allowed: the period is the current one, the count is below the maximum (as
/// big-endian numbers) and the code is the MAC of the identifier.
pub open spec fn credential_accepts(
    uid: Seq<u8>,
    code: Seq<u8>,
    period: Seq<u8>,
    count: Seq<u8>,
    current_period: Seq<u8>,
    max_count: Seq<u8>,
    sk: Seq<u8>,
) -> bool {
    &&& period == current_period
    &&& lex_lt(count, max_count)
    &&& code == credential_code(sk, uid)
}

impl Credential {
    pub fn new(uid: Long, code: Long) -> (r: Self)
        ensures
            r.uid == uid,
            r.code == code,
    {
        Self { uid, code }
    }

    /// The credential of the identifier `uid` under the key `sk`.
    pub fn for_uid(sk: Long, uid: Long) -> (r: Self)
        ensures
            r.uid == uid,
            r.code@ == credential_code(sk@, uid@),
    {
        let code = hmac_sha256_bytes(&sk, &uid);
        Self { uid, code }
    }

    /// A credential for a fresh random identifier.
    pub fn random(sk: Long) -> (r: Self)
        ensures
            r.code@ == credential_code(sk@, r.uid@),
    {
        let uid: Long = random_bytes();
        Self::for_uid(sk, uid)
    }

    /// Reads the first 64 bytes as `uid || code`.
    pub fn from_bytes(bytes: &[u8]) -> (r: Self)
        requires
            bytes@.len() >= 64,
        ensures
            r.uid@ == bytes@.subrange(0, 32),
            r.code@ == bytes@.subrange(32, 64),
    {
        let uid: Long = array_at(bytes, 0);
        let code: Long = array_at(bytes, 32);
        Self { uid, code }
    }

    /// Checks, without branching on secrets, that the credential is genuine
    /// and presented for the current period with a count below the maximum.
    pub fn is_valid(
        &self,
        period: Short,
        count: Short,
        current_period: Short,
        max_count: Short,
        sk: Long,
    ) -> (r: bool)
        ensures
            r == credential_accepts(
                self.uid@,
                self.code@,
                period@,
                count@,
                current_period@,
                max_count@,
                sk@,
            ),
    {
        let expected_code = hmac_sha256_bytes(&sk, &self.uid);
        self.is_valid_with_code(period, count, current_period, max_count, expected_code)
    }

    /// The checks of `is_valid` once the genuine code of the identifier is
    /// known: the period is the current one, the count is below the maximum
    /// and the code is the genuine one, all compared in constant time.
    pub fn is_valid_with_code(
        &self,
        period: Short,
        count: Short,
        current_period: Short,
        max_count: Short,
        expected_code: Long,
    ) -> (r: bool)
        ensures
            r == (period@ == current_period@ && lex_lt(count@, max_count@) && self.code@ == expected_code@),
    {
        let is_current: u8 = if ct_eq(&period, &current_period) { 1 } else { 0 };
        let is_count_valid: u8 = if ct_lt(&count, &max_count) { 1 } else { 0 };
        let is_code_valid: u8 = if ct_eq(&expected_code, &self.code) { 1 } else { 0 };
        assert((is_current & is_count_valid & is_code_valid) == 1u8 <==> (is_current == 1u8
            && is_count_valid == 1u8 && is_code_valid == 1u8)) by (bit_vector)
            requires
                is_current == 0u8 || is_current == 1u8,
                is_count_valid == 0u8 || is_count_valid == 1u8,
                is_code_valid == 0u8 || is_code_valid == 1u8,
        ;
        (is_current & is_count_valid & is_code_valid) == 1
    }

    /// The 64-byte encoding `uid || code`.
    pub fn to_bytes(&self) -> (r: Vec<u8>)
        ensures
            r@ == credential_bytes(self.uid@, self.code@),
    {
        let mut bytes = Vec::new();
        append_bytes(&mut bytes, &self.uid);
        append_bytes(&mut bytes, &self.code);
        bytes
    }
}

} // verus!
