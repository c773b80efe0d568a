use vstd::prelude::*;

use crate::crypto::{hmac_sha256, hmac_sha256_bytes};
use crate::ct::bytes::{append_bytes, array_at, Long, Short};

verus! {

/// A token: a 32-byte pseudorandom value.
pub struct Token {
    pub token: Long,
}

/// The token that the identifier `uid` gives the request number `cnt` in the
/// period `period`: `HMAC(uid, cnt || period)`.
pub open spec fn token_value(uid: Seq<u8>, period: Seq<u8>, cnt: Seq<u8>) -> Seq<u8> {
    hmac_sha256(uid, cnt + period)
}

/// The number that the first four bytes of `s` encode, big-endian.
pub open spec fn be_u32_prefix(s: Seq<u8>) -> int {
    s[0] * 16777216 + s[1] * 65536 + s[2] * 256 + s[3]
}

impl Token {
    pub fn new(token: Long) -> (r: Self)
        ensures
            r.token == token,
    {
        Self { token }
    }

    /// The token of `uid` for the request `cnt` of the period `period`.
    pub fn random(uid: Long, period: Short, cnt: Short) -> (r: Self)
        ensures
            r.token@ == token_value(uid@, period@, cnt@),
    {
        let mut msg: Vec<u8> = Vec::new();
        append_bytes(&mut msg, &cnt);
        append_bytes(&mut msg, &period);
        let token = hmac_sha256_bytes(&uid, msg.as_slice());
        Self { token }
    }

    /// Reads the token from the first 32 bytes of a token record, which holds
    /// at least the 32-byte token and an 8-byte period.
    pub fn from_bytes(bytes: &[u8]) -> (r: Self)
        requires
            bytes@.len() >= 40,
        ensures
            r.token@ == bytes@.subrange(0, 32),
    {
        let token: Long = array_at(bytes, 0);
        Self { token }
    }

    /// The route of the token among `max` routes: its first four bytes, read
    /// big-endian, modulo `max`.
    pub fn route(&self, max: u32) -> (r: u32)
        requires
            max > 0,
        ensures
            r as int == be_u32_prefix(self.token@) % (max as int),
            r < max,
    {
        let prefix: u32 = (self.token[0] as u32) * 16777216 + (self.token[1] as u32) * 65536
            + (self.token[2] as u32) * 256 + (self.token[3] as u32);
        prefix % max
    }

    /// The 32 bytes of the token.
    pub fn to_bytes(&self) -> (r: Vec<u8>)
        ensures
            r@ == self.token@,
    {
        let mut bytes = Vec::new();
        append_bytes(&mut bytes, &self.token);
        bytes
    }
}

} // verus!
