use subtle::{Choice, ConditionallySelectable};
use vstd::prelude::*;

use crate::ct::cmp::{ct_lt, lemma_lex_lt_asymmetric, lex_lt};

verus! {

/// Constant-time selection between two bytes (through `subtle`).
///
/// Calls `<u8 as subtle::ConditionallySelectable>::conditional_select`, which
/// returns `a` when the choice is 0 and `b` when it is 1.
#[verifier::external_body]
fn ct_select_u8(a: u8, b: u8, choose_b: bool) -> (r: u8)
    ensures
        r == (if choose_b { b } else { a }),
{
    u8::conditional_select(&a, &b, Choice::from(choose_b as u8))
}

/// Whether the pair `(left, right)` is to be exchanged to put it in the
/// requested order (ascending when `dir_asc`).
pub open spec fn should_swap(left: Seq<u8>, right: Seq<u8>, dir_asc: bool) -> bool {
    if dir_asc {
        lex_lt(right, left)
    } else {
        lex_lt(left, right)
    }
}

/// Selects each byte of `a` or `b` without branching on the choice.
fn ct_select_array(a: &[u8; 32], b: &[u8; 32], choose_b: bool) -> (r: [u8; 32])
    ensures
        r@ == (if choose_b { b@ } else { a@ }),
{
    let mut out = [0u8; 32];
    let mut idx: usize = 0;
    while idx < 32
        invariant
            0 <= idx <= 32,
            out@.len() == 32,
            forall|k: int| 0 <= k < idx ==> out@[k] == (if choose_b { b@[k] } else { a@[k] }),
        decreases 32 - idx,
    {
        out[idx] = ct_select_u8(a[idx], b[idx], choose_b);
        idx = idx + 1;
    }
    assert(out@ =~= (if choose_b { b@ } else { a@ }));
    out
}

/// One compare-exchange step of a sorting network over 32-byte entries:
/// entries `i` and `j` are put in ascending (or descending) order, in constant
/// time, by selecting every byte rather than branching.
pub fn compare_and_swap(data: &mut Vec<[u8; 32]>, i: usize, j: usize, dir_asc: bool)
    requires
        i < old(data).len(),
        j < old(data).len(),
    ensures
        final(data).len() == old(data).len(),
        forall|k: int| 0 <= k < old(data).len() && k != i && k != j
            ==> final(data)@[k] == old(data)@[k],
        i != j ==> final(data)@[i as int]@ == (if should_swap(old(data)@[i as int]@, old(data)@[j as int]@, dir_asc) {
            old(data)@[j as int]@
        } else {
            old(data)@[i as int]@
        }),
        i != j ==> final(data)@[j as int]@ == (if should_swap(old(data)@[i as int]@, old(data)@[j as int]@, dir_asc) {
            old(data)@[i as int]@
        } else {
            old(data)@[j as int]@
        }),
        i == j ==> final(data)@[i as int]@ == old(data)@[i as int]@,
        i != j ==> !should_swap(final(data)@[i as int]@, final(data)@[j as int]@, dir_asc),
{
    proof {
        lemma_lex_lt_asymmetric(data@[i as int]@, data@[j as int]@);
        lemma_lex_lt_asymmetric(data@[j as int]@, data@[i as int]@);
    }
    let left = data[i];
    let right = data[j];

    let swap = if dir_asc {
        ct_lt(&right, &left)
    } else {
        ct_lt(&left, &right)
    };

    let new_left = ct_select_array(&left, &right, swap);
    let new_right = ct_select_array(&right, &left, swap);

    data.set(i, new_left);
    data.set(j, new_right);
}

} // verus!
