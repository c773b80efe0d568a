//! The lexicographic order of big-endian encodings is the order of the numbers.

use vstd::arithmetic::div_mod::{lemma_div_denominator, lemma_fundamental_div_mod, lemma_mod_bound};
use vstd::prelude::*;

use crate::ct::cmp::{lex_lt, lt_at};
use crate::ct::time::{be_bytes_u64, pow256};

verus! {

/// The number formed by the first `i` big-endian bytes of `v`.
spec fn prefix_value(v: u64, i: int) -> int {
    v as int / pow256(8 - i)
}

proof fn lemma_pow256_pos(e: int)
    ensures
        pow256(e) > 0,
    decreases e,
{
    if e > 0 {
        lemma_pow256_pos(e - 1);
    }
}

proof fn lemma_pow256_8()
    ensures
        pow256(8) == 0x1_0000_0000_0000_0000,
{
    reveal_with_fuel(pow256, 9);
}

/// Digit `i` extends the prefix of length `i` to the prefix of length `i + 1`.
proof fn lemma_prefix_step(v: u64, i: int)
    requires
        0 <= i < 8,
    ensures
        prefix_value(v, i + 1) == prefix_value(v, i) * 256 + be_bytes_u64(v)[i] as int,
        0 <= be_bytes_u64(v)[i] < 256,
{
    let a = pow256(7 - i);
    lemma_pow256_pos(7 - i);
    assert(pow256(8 - i) == 256 * a);
    let q = v as int / a;
    lemma_fundamental_div_mod(q, 256);
    lemma_mod_bound(q, 256);
    lemma_div_denominator(v as int, a, 256);
    assert(a * 256 == 256 * a) by (nonlinear_arith);
    assert(q / 256 == prefix_value(v, i));
    assert(be_bytes_u64(v)[i] as int == q % 256);
}

proof fn lemma_prefix_bounds(v: u64, i: int)
    requires
        0 <= i <= 8,
    ensures
        prefix_value(v, i) * pow256(8 - i) <= v,
        v < (prefix_value(v, i) + 1) * pow256(8 - i),
        prefix_value(v, 0) == 0,
        prefix_value(v, 8) == v,
{
    let a = pow256(8 - i);
    lemma_pow256_pos(8 - i);
    lemma_fundamental_div_mod(v as int, a);
    lemma_mod_bound(v as int, a);
    let p = v as int / a;
    assert(p * a == a * p) by (nonlinear_arith);
    assert((p + 1) * a == a * p + a) by (nonlinear_arith);
    lemma_pow256_8();
    assert(pow256(0) == 1);
    assert(v as int / pow256(8) == 0);
}

/// Equal leading digits give equal prefixes.
proof fn lemma_equal_prefix(x: u64, y: u64, i: int)
    requires
        0 <= i <= 8,
        forall|j: int| 0 <= j < i ==> be_bytes_u64(x)[j] == be_bytes_u64(y)[j],
    ensures
        prefix_value(x, i) == prefix_value(y, i),
    decreases i,
{
    if i == 0 {
        lemma_prefix_bounds(x, 0);
        lemma_prefix_bounds(y, 0);
    } else {
        lemma_equal_prefix(x, y, i - 1);
        lemma_prefix_step(x, i - 1);
        lemma_prefix_step(y, i - 1);
    }
}

/// A smaller digit after equal leading digits makes a smaller number.
proof fn lemma_lt_at_implies_lt(x: u64, y: u64, k: int)
    requires
        lt_at(be_bytes_u64(x), be_bytes_u64(y), k),
    ensures
        x < y,
{
    lemma_equal_prefix(x, y, k);
    lemma_prefix_step(x, k);
    lemma_prefix_step(y, k);
    let px = prefix_value(x, k + 1);
    let py = prefix_value(y, k + 1);
    assert(px + 1 <= py);
    lemma_prefix_bounds(x, k + 1);
    lemma_prefix_bounds(y, k + 1);
    let a = pow256(8 - (k + 1));
    lemma_pow256_pos(8 - (k + 1));
    assert((px + 1) * a <= py * a) by (nonlinear_arith)
        requires
            px + 1 <= py,
            a > 0,
    ;
}

/// From position `i` on, either all digits agree or the first difference is
/// smaller on one side.
proof fn lemma_first_difference(x: u64, y: u64, i: int)
    requires
        0 <= i <= 8,
        forall|j: int| 0 <= j < i ==> be_bytes_u64(x)[j] == be_bytes_u64(y)[j],
    ensures
        x == y || lex_lt(be_bytes_u64(x), be_bytes_u64(y)) || lex_lt(be_bytes_u64(y), be_bytes_u64(x)),
    decreases 8 - i,
{
    if i == 8 {
        lemma_equal_prefix(x, y, 8);
        lemma_prefix_bounds(x, 8);
        lemma_prefix_bounds(y, 8);
    } else if be_bytes_u64(x)[i] == be_bytes_u64(y)[i] {
        lemma_first_difference(x, y, i + 1);
    } else if be_bytes_u64(x)[i] < be_bytes_u64(y)[i] {
        assert(lt_at(be_bytes_u64(x), be_bytes_u64(y), i));
    } else {
        assert(lt_at(be_bytes_u64(y), be_bytes_u64(x), i));
    }
}

/// Comparing the big-endian encodings of two `u64` compares the numbers.
pub proof fn lemma_be_order(x: u64, y: u64)
    ensures
        lex_lt(be_bytes_u64(x), be_bytes_u64(y)) <==> x < y,
{
    if lex_lt(be_bytes_u64(x), be_bytes_u64(y)) {
        let k = choose|k: int| #[trigger] lt_at(be_bytes_u64(x), be_bytes_u64(y), k);
        lemma_lt_at_implies_lt(x, y, k);
    }
    if x < y {
        lemma_first_difference(x, y, 0);
        if lex_lt(be_bytes_u64(y), be_bytes_u64(x)) {
            let k = choose|k: int| #[trigger] lt_at(be_bytes_u64(y), be_bytes_u64(x), k);
            lemma_lt_at_implies_lt(y, x, k);
        }
    }
}

} // verus!
