use vstd::prelude::*;

verus! {

/// An 8-byte big-endian value (counters and periods).
pub type Short = [u8; 8];

/// A 32-byte value (keys, identifiers, codes and tokens).
pub type Long = [u8; 32];

/// Copies `N` bytes of `bytes`, from `start` on, into an array.
pub fn array_at<const N: usize>(bytes: &[u8], start: usize) -> (r: [u8; N])
    requires
        start + N <= bytes@.len(),
    ensures
        r@ == bytes@.subrange(start as int, start + N),
{
    let mut out: [u8; N] = vstd::array::array_fill_for_copy_types(0u8);
    let mut k: usize = 0;
    while k < N
        invariant
            0 <= k <= N,
            start + N <= bytes@.len(),
            bytes@.len() == bytes.len(),
            out@.len() == N,
            forall|j: int| 0 <= j < k ==> out@[j] == bytes@[start + j],
        decreases N - k,
    {
        out[k] = bytes[start + k];
        k = k + 1;
    }
    assert(out@ =~= bytes@.subrange(start as int, start + N));
    out
}

/// Appends every byte of `src` to `dst`.
pub fn append_bytes(dst: &mut Vec<u8>, src: &[u8])
    ensures
        final(dst)@ == old(dst)@ + src@,
{
    let mut k: usize = 0;
    while k < src.len()
        invariant
            0 <= k <= src@.len(),
            dst@ == old(dst)@ + src@.subrange(0, k as int),
        decreases src@.len() - k,
    {
        dst.push(src[k]);
        k = k + 1;
        assert(src@.subrange(0, k as int) =~= src@.subrange(0, k - 1) + seq![src@[k - 1]]);
    }
    assert(src@.subrange(0, src@.len() as int) =~= src@);
}

} // verus!
