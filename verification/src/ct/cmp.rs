use subtle::ConstantTimeEq;
use vstd::prelude::*;

verus! {

/// `a` is strictly smaller than `b` in the lexicographic (big-endian) order,
/// the first differing position being `k`.
pub open spec fn lt_at(a: Seq<u8>, b: Seq<u8>, k: int) -> bool {
    &&& 0 <= k < a.len()
    &&& k < b.len()
    &&& a[k] < b[k]
    &&& forall|j: int| 0 <= j < k ==> a[j] == b[j]
}

/// Strict lexicographic order on byte strings of equal length: the order of the
/// big-endian numbers they encode.
pub open spec fn lex_lt(a: Seq<u8>, b: Seq<u8>) -> bool {
    exists|k: int| #[trigger] lt_at(a, b, k)
}

/// Constant-time equality of two bytes (through `subtle`).
///
/// Calls `<u8 as subtle::ConstantTimeEq>::ct_eq` and converts the `Choice` to a
/// `bool`; the contract claims the result is exactly byte equality.
#[verifier::external_body]
fn ct_eq_u8(a: u8, b: u8) -> (r: bool)
    ensures
        r == (a == b),
{
    a.ct_eq(&b).into()
}

proof fn lemma_or_xor_zero(diff: u8, x: u8, y: u8)
    ensures
        (diff | (x ^ y)) == 0 <==> (diff == 0 && x == y),
{
    assert((diff | (x ^ y)) == 0 <==> (diff == 0 && x == y)) by (bit_vector);
}

/// Compares two byte arrays without branching on their contents.
pub fn ct_eq<const N: usize>(a: &[u8; N], b: &[u8; N]) -> (r: bool)
    ensures
        r == (a@ == b@),
{
    let mut diff: u8 = 0;
    let mut i: usize = 0;
    while i < N
        invariant
            0 <= i <= N,
            a@.len() == N,
            b@.len() == N,
            (diff == 0) <==> (forall|j: int| 0 <= j < i ==> a@[j] == b@[j]),
        decreases N - i,
    {
        proof {
            lemma_or_xor_zero(diff, a@[i as int], b@[i as int]);
        }
        diff = diff | (a[i] ^ b[i]);
        i = i + 1;
    }
    assert(diff == 0 ==> a@ =~= b@);
    ct_eq_u8(diff, 0)
}

proof fn lemma_borrow_bit(x: u8, y: u8, d: u16)
    requires
        d == (if x < y { (x + 65536 - y) as u16 } else { (x - y) as u16 }),
    ensures
        (((d >> 8u16) as u8) & 1u8) == (if x < y { 1u8 } else { 0u8 }),
{
    assert((((d >> 8u16) as u8) & 1u8) == (if x < y { 1u8 } else { 0u8 })) by (bit_vector)
        requires
            d == (if x < y { (x + 65536 - y) as u16 } else { (x - y) as u16 }),
    ;
}

proof fn lemma_flags(lt: u8, eq: u8, x_lt_y: u8, x_eq_y: u8)
    requires
        lt == 0 || lt == 1,
        eq == 0 || eq == 1,
        x_lt_y == 0 || x_lt_y == 1,
        x_eq_y == 0 || x_eq_y == 1,
    ensures
        (lt | (x_lt_y & eq)) == (if lt == 1 || (x_lt_y == 1 && eq == 1) { 1u8 } else { 0u8 }),
        (eq & x_eq_y) == (if eq == 1 && x_eq_y == 1 { 1u8 } else { 0u8 }),
{
    assert((lt | (x_lt_y & eq)) == (if lt == 1 || (x_lt_y == 1 && eq == 1) { 1u8 } else { 0u8 }))
        by (bit_vector)
        requires
            lt == 0 || lt == 1,
            eq == 0 || eq == 1,
            x_lt_y == 0 || x_lt_y == 1,
    ;
    assert((eq & x_eq_y) == (if eq == 1 && x_eq_y == 1 { 1u8 } else { 0u8 })) by (bit_vector)
        requires
            eq == 0 || eq == 1,
            x_eq_y == 0 || x_eq_y == 1,
    ;
}

/// Compares two byte arrays as big-endian numbers without branching on their
/// contents: true exactly when `a < b`.
pub fn ct_lt<const N: usize>(a: &[u8; N], b: &[u8; N]) -> (r: bool)
    ensures
        r == lex_lt(a@, b@),
{
    let mut lt: u8 = 0;
    let mut eq: u8 = 1;
    let mut i: usize = 0;
    while i < N
        invariant
            0 <= i <= N,
            a@.len() == N,
            b@.len() == N,
            eq == 0 || eq == 1,
            lt == 0 || lt == 1,
            (eq == 1) <==> (forall|j: int| 0 <= j < i ==> a@[j] == b@[j]),
            (lt == 1) <==> (exists|k: int| 0 <= k < i && #[trigger] lt_at(a@, b@, k)),
        decreases N - i,
    {
        let x = a[i];
        let y = b[i];
        let d: u16 = (x as u16).wrapping_sub(y as u16);
        proof {
            lemma_borrow_bit(x, y, d);
        }
        let x_lt_y = ((d >> 8) as u8) & 1;
        let x_eq_y: u8 = if ct_eq_u8(x ^ y, 0) { 1 } else { 0 };
        assert((x ^ y) == 0u8 <==> x == y) by (bit_vector);
        proof {
            lemma_flags(lt, eq, x_lt_y, x_eq_y);
            if eq == 1 && x_lt_y == 1 {
                assert(lt_at(a@, b@, i as int));
            }
            if exists|k: int| 0 <= k < i + 1 && #[trigger] lt_at(a@, b@, k) {
                let k = choose|k: int| 0 <= k < i + 1 && #[trigger] lt_at(a@, b@, k);
                if k == i {
                    assert(eq == 1);
                }
            }
        }
        lt = lt | (x_lt_y & eq);
        eq = eq & x_eq_y;
        i = i + 1;
    }
    lt == 1
}

/// The order of equal-length byte strings is a strict order: no string is
/// below itself, and of two strings at most one is below the other.
pub proof fn lemma_lex_lt_asymmetric(a: Seq<u8>, b: Seq<u8>)
    ensures
        lex_lt(a, b) ==> !lex_lt(b, a),
        !lex_lt(a, a),
{
    if lex_lt(a, b) && lex_lt(b, a) {
        let k1 = choose|k: int| #[trigger] lt_at(a, b, k);
        let k2 = choose|k: int| #[trigger] lt_at(b, a, k);
        if k1 < k2 {
            assert(a[k1] == b[k1]);
        } else if k2 < k1 {
            assert(b[k2] == a[k2]);
        }
    }
    if lex_lt(a, a) {
        let k = choose|k: int| #[trigger] lt_at(a, a, k);
        assert(a[k] < a[k]);
    }
}

/// The order is transitive.
pub proof fn lemma_lex_lt_transitive(a: Seq<u8>, b: Seq<u8>, c: Seq<u8>)
    requires
        lex_lt(a, b),
        lex_lt(b, c),
    ensures
        lex_lt(a, c),
{
    let k1 = choose|k: int| #[trigger] lt_at(a, b, k);
    let k2 = choose|k: int| #[trigger] lt_at(b, c, k);
    if k1 <= k2 {
        assert(lt_at(a, c, k1));
    } else {
        assert(lt_at(a, c, k2));
    }
}

proof fn lemma_lex_lt_total_from(a: Seq<u8>, b: Seq<u8>, i: int)
    requires
        a.len() == b.len(),
        0 <= i <= a.len(),
        forall|j: int| 0 <= j < i ==> a[j] == b[j],
    ensures
        a == b || lex_lt(a, b) || lex_lt(b, a),
    decreases a.len() - i,
{
    if i == a.len() {
        assert(a =~= b);
    } else if a[i] < b[i] {
        assert(lt_at(a, b, i));
    } else if b[i] < a[i] {
        assert(lt_at(b, a, i));
    } else {
        lemma_lex_lt_total_from(a, b, i + 1);
    }
}

/// Of two different strings of one length, one is below the other.
pub proof fn lemma_lex_lt_total(a: Seq<u8>, b: Seq<u8>)
    requires
        a.len() == b.len(),
    ensures
        a == b || lex_lt(a, b) || lex_lt(b, a),
{
    lemma_lex_lt_total_from(a, b, 0);
}

} // verus!
