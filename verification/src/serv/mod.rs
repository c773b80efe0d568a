//! The server side around the enclaves: the duplicate-token filter, the TLS
//! alerts it maps to, the public-key API and the bookkeeping of enclave calls.

pub mod api;
pub mod filter;
pub mod runtime;
pub mod startup;
pub mod tls;
pub mod tls_utils;

use vstd::prelude::*;

verus! {

/// All routes `0..max`.
pub fn all_prefix(max: u32) -> (r: Vec<u32>)
    ensures
        r@ == Seq::new(max as nat, |i: int| i as u32),
{
    let mut out: Vec<u32> = Vec::new();
    let mut i: u32 = 0;
    while i < max
        invariant
            0 <= i <= max,
            out@ == Seq::new(i as nat, |k: int| k as u32),
        decreases max - i,
    {
        out.push(i);
        i = i + 1;
        assert(out@ =~= Seq::new(i as nat, |k: int| k as u32));
    }
    out
}

} // verus!
