use star::ct::cmp::{ct_eq, ct_lt};
use star::ct::swap::compare_and_swap;
use star::ct::time::{current_period, period_from_secs, u64_to_be};

#[test]
fn equals_long_in_constant_time() {
    let a = [7u8; 32];
    let b = [7u8; 32];
    let mut c = [7u8; 32];
    c[0] = 0;

    assert!(ct_eq(&a, &b));
    assert!(!ct_eq(&a, &c));
}

#[test]
fn equals_short_in_constant_time() {
    let a = [0u8; 8];
    let mut b = [0u8; 8];
    b[7] = 1;

    assert!(ct_eq(&a, &a));
    assert!(!ct_eq(&a, &b));
}

#[test]
fn less_than_long_in_constant_time() {
    let mut a = [1u8; 32];
    a[31] = 2;
    let mut b = [1u8; 32];
    b[31] = 3;
    let mut c = [1u8; 32];
    c[31] = 1;

    assert!(ct_lt(&a, &b));
    assert!(!ct_lt(&a, &c));
    assert!(!ct_lt(&b, &a));
}

#[test]
fn less_than_short_in_constant_time() {
    let mut a = [5u8; 8];
    a[0] = 6;
    let mut b = [5u8; 8];
    b[0] = 7;
    let mut c = [5u8; 8];
    c[0] = 4;

    assert!(ct_lt(&a, &b));
    assert!(!ct_lt(&a, &a));
    assert!(!ct_lt(&a, &c));
    assert!(ct_lt(&c, &a));
}

#[test]
fn less_than_short_handles_large_byte_differences() {
    let zero = 0u64.to_be_bytes();
    let large = 3_000_000_000u64.to_be_bytes();

    assert!(ct_lt(&zero, &large));
    assert!(!ct_lt(&large, &zero));
}

#[test]
fn swaps_for_ascending_order() {
    let mut data = vec![[0u8; 32]; 2];
    data[0][0] = 5;
    data[1][0] = 3;

    compare_and_swap(&mut data, 0, 1, true);

    assert_eq!(data[0][0], 3);
    assert_eq!(data[1][0], 5);
}

#[test]
fn swaps_for_descending_order() {
    let mut data = vec![[0u8; 32]; 2];
    data[0][0] = 1;
    data[1][0] = 9;

    compare_and_swap(&mut data, 0, 1, false);

    assert_eq!(data[0][0], 9);
    assert_eq!(data[1][0], 1);
}

#[test]
fn keeps_order_when_already_correct() {
    let mut data = vec![[0u8; 32]; 2];
    data[0][0] = 1;
    data[1][0] = 4;

    compare_and_swap(&mut data, 0, 1, true);

    assert_eq!(data[0][0], 1);
    assert_eq!(data[1][0], 4);
}

#[test]
fn compare_and_swap_leaves_other_entries_and_equal_pairs() {
    let mut data = vec![[2u8; 32], [9u8; 32], [2u8; 32]];
    compare_and_swap(&mut data, 0, 2, true);
    assert_eq!(data, vec![[2u8; 32], [9u8; 32], [2u8; 32]]);
    compare_and_swap(&mut data, 1, 1, false);
    assert_eq!(data[1], [9u8; 32]);
    // a difference in the last byte decides too
    let mut a = [4u8; 32];
    a[31] = 1;
    let mut data = vec![[4u8; 32], a];
    compare_and_swap(&mut data, 0, 1, true);
    assert_eq!(data[0], a);
}

#[test]
fn lex_order_is_strict_and_total_on_examples() {
    let x = [1u8, 2, 3, 4];
    let y = [1u8, 2, 4, 0];
    assert!(ct_lt(&x, &y) && !ct_lt(&y, &x));
    assert!(!ct_lt(&x, &x));
    let z = [1u8, 3, 0, 0];
    assert!(ct_lt(&y, &z) && ct_lt(&x, &z));
}

#[test]
fn big_endian_order_matches_numbers() {
    let values = [0u64, 1, 255, 256, 65_535, 3_000_000_000, u64::MAX];
    for a in values {
        for b in values {
            assert_eq!(ct_lt(&u64_to_be(a), &u64_to_be(b)), a < b);
            assert_eq!(ct_eq(&u64_to_be(a), &u64_to_be(b)), a == b);
        }
    }
}

#[test]
fn periods_are_minutes_since_the_epoch() {
    assert_eq!(period_from_secs(0), [0u8; 8]);
    assert_eq!(period_from_secs(59), [0u8; 8]);
    assert_eq!(period_from_secs(60), 1u64.to_be_bytes());
    assert_eq!(period_from_secs(3_600), 60u64.to_be_bytes());
    let now = current_period().expect("clock after the epoch");
    assert!(u64::from_be_bytes(now) > 28_000_000);
}
