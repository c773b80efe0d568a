use vstd::prelude::*;

use crate::ct::bytes::Short;
use vstd::arithmetic::div_mod::lemma_div_denominator;

verus! {

/// The big-endian encoding of `v` in eight bytes.
pub open spec fn be_bytes_u64(v: u64) -> Seq<u8> {
    Seq::new(8, |i: int| ((v as int / pow256(7 - i)) % 256) as u8)
}

/// `256^e` for a small exponent.
pub open spec fn pow256(e: int) -> int
    decreases e,
{
    if e <= 0 {
        1
    } else {
        256 * pow256(e - 1)
    }
}

/// The length of a period, in seconds.
pub const PERIOD_SECS: u64 = 60;

/// Seconds since the Unix epoch, from the system clock.
///
/// Calls `std::time::SystemTime::now` and `duration_since(UNIX_EPOCH)`; the
/// result depends on the clock, so nothing is claimed of it. `None` stands for a
/// clock set before the epoch.
#[verifier::external_body]
fn unix_now_secs() -> (r: Option<u64>) {
    match std::time::SystemTime::now().duration_since(std::time::UNIX_EPOCH) {
        Ok(elapsed) => Some(elapsed.as_secs()),
        Err(_) => None,
    }
}

/// The big-endian bytes of `v` (std's `u64::to_be_bytes`).
pub fn u64_to_be(v: u64) -> (r: Short)
    ensures
        r@ == be_bytes_u64(v),
{
    let mut out = [0u8; 8];
    let mut rest: u64 = v;
    let mut i: usize = 8;
    while i > 0
        invariant
            0 <= i <= 8,
            out@.len() == 8,
            rest as int == v as int / pow256(8 - i),
            forall|k: int| i <= k < 8 ==> out@[k] == be_bytes_u64(v)[k],
        decreases i,
    {
        i = i - 1;
        out[i] = (rest % 256) as u8;
        proof {
            lemma_pow256_pos(7 - i as int);
            assert(pow256(8 - i) == 256 * pow256(7 - i as int));
            lemma_div_denominator(v as int, pow256(7 - i as int), 256);
            assert(pow256(7 - i as int) * 256 == 256 * pow256(7 - i as int)) by (nonlinear_arith);
        }
        rest = rest / 256;
    }
    assert(out@ =~= be_bytes_u64(v));
    out
}

proof fn lemma_pow256_pos(e: int)
    ensures
        pow256(e) > 0,
    decreases e,
{
    if e > 0 {
        lemma_pow256_pos(e - 1);
    }
}



/// The big-endian bytes of the period that `secs` seconds since the epoch fall in.
pub open spec fn period_bytes(secs: u64) -> Seq<u8> {
    be_bytes_u64(secs / PERIOD_SECS)
}

/// The period that `secs` seconds since the epoch fall in, as big-endian bytes.
pub fn period_from_secs(secs: u64) -> (r: Short)
    ensures
        r@ == period_bytes(secs),
{
    u64_to_be(secs / PERIOD_SECS)
}

/// The current one-minute period, as big-endian bytes; `None` when the system
/// clock is set before the Unix epoch.
pub fn current_period() -> (r: Option<Short>)
    ensures
        r matches Some(p) ==> exists|secs: u64| p@ == #[trigger] period_bytes(secs),
{
    match unix_now_secs() {
        Some(secs) => Some(period_from_secs(secs)),
        None => None,
    }
}

} // verus!
