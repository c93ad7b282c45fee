use pump::bigint::BigInteger;
use pump::decimal::{Decimal, MAX_DIVISOR_DIGITS, MAX_SCALE};
use pump::uint::{int_to_decimal, to_bigint, U256};

fn dec(n: u128) -> Decimal {
    Decimal::from_u128(n)
}

fn scaled(n: u128, scale: i64) -> Decimal {
    Decimal { unscaled: BigInteger::from_u128(n), scale }
}

fn value_of(n: &BigInteger) -> i128 {
    let mut v: i128 = 0;
    for b in n.magnitude.iter().rev() {
        v = v * 256 + *b as i128;
    }
    if n.negative {
        -v
    } else {
        v
    }
}

#[test]
fn bigint_from_u128_writes_low_byte_first() {
    let n = BigInteger::from_u128(0x0102);
    assert!(!n.negative);
    assert_eq!(n.magnitude.len(), 16);
    assert_eq!(n.magnitude[0], 0x02);
    assert_eq!(n.magnitude[1], 0x01);
    assert!(n.magnitude[2..].iter().all(|b| *b == 0));
    assert_eq!(value_of(&n), 258);
}

#[test]
fn bigint_from_le_bytes_keeps_the_value() {
    let n = BigInteger::from_le_bytes(&[0x34, 0x12]);
    assert_eq!(value_of(&n), 0x1234);
    assert!(!n.negative);
}

#[test]
fn bigint_zero_is_zero() {
    let z = BigInteger::zero();
    assert!(z.is_zero());
    assert!(!z.is_positive());
    assert!(!z.is_negative());
    assert!(BigInteger::from_u128(0).is_zero());
}

#[test]
fn bigint_sub_gives_the_difference() {
    let five = BigInteger::from_u128(5);
    let seven = BigInteger::from_u128(7);
    let d = five.sub(&seven);
    assert_eq!(value_of(&d), -2);
    assert!(d.is_negative());
    assert!(!d.is_positive());
    let e = seven.sub(&five);
    assert_eq!(value_of(&e), 2);
    assert!(e.is_positive());
}

#[test]
fn bigint_sub_of_equals_is_zero() {
    let a = BigInteger::from_u128(1_000_000_007);
    let d = a.sub(&a.clone());
    assert!(d.is_zero());
    assert!(!d.is_negative());
    assert!(!d.is_positive());
}

#[test]
fn bigint_sub_crosses_many_bytes() {
    let a = BigInteger::from_u128(1u128 << 100);
    let b = BigInteger::from_u128(1);
    assert_eq!(value_of(&a.sub(&b)), (1i128 << 100) - 1);
    assert_eq!(value_of(&b.sub(&a)), 1 - (1i128 << 100));
}

#[test]
fn bigint_significant_len_skips_high_zeros() {
    assert_eq!(BigInteger::from_u128(0).significant_len(), 0);
    assert_eq!(BigInteger::from_u128(255).significant_len(), 1);
    assert_eq!(BigInteger::from_u128(256).significant_len(), 2);
}

#[test]
fn u256_from_u128_has_the_value() {
    let x = U256::from_u128(0xdead_beef);
    assert_eq!(x.le_bytes[0], 0xef);
    assert_eq!(x.le_bytes[1], 0xbe);
    assert_eq!(x.le_bytes[2], 0xad);
    assert_eq!(x.le_bytes[3], 0xde);
    assert!(x.le_bytes[4..].iter().all(|b| *b == 0));
    assert!(U256::zero().le_bytes.iter().all(|b| *b == 0));
}

#[test]
fn u256_to_bigint_keeps_the_value() {
    let x = U256::from_u128(123_456_789);
    let n = to_bigint(&x);
    assert_eq!(value_of(&n), 123_456_789);
    assert!(!n.negative);
}

#[test]
fn u256_above_128_bits_to_decimal() {
    let mut le_bytes = [0u8; 32];
    le_bytes[31] = 1;
    let d = int_to_decimal(&U256 { le_bytes });
    assert_eq!(d.scale, 0);
    assert!(dec(u128::MAX).lt(&d));
    assert!(d.is_positive());
}

#[test]
fn decimal_orders_by_value_not_by_digits() {
    let half = scaled(5, 1);
    let two = dec(2);
    assert!(half.lt(&two));
    assert!(!two.lt(&half));
    assert!(two.gt(&half));
    assert!(half.le(&two));
    assert!(!two.le(&half));
    // 20 with one digit after the point is 2
    let two_again = scaled(20, 1);
    assert!(two_again.same_value(&two));
    assert!(!two_again.lt(&two));
    assert!(two_again.le(&two));
    // 5 with a scale of minus one is 50
    assert!(scaled(5, -1).same_value(&dec(50)));
}

#[test]
fn decimal_orders_negative_numbers() {
    let minus_three = dec(3).negated_whole();
    assert!(minus_three.lt(&dec(0)));
    assert!(minus_three.lt(&dec(3)));
    assert!(!minus_three.is_positive());
    assert!(!minus_three.is_zero());
    assert!(minus_three.unscaled.negative);
    assert_eq!(value_of(&minus_three.unscaled), -3);
}

#[test]
fn decimal_negated_whole_turns_the_sign_back() {
    let back = dec(41).negated_whole().negated_whole();
    assert!(back.same_value(&dec(41)));
    assert!(dec(0).negated_whole().is_zero());
}

#[test]
fn decimal_division_is_exact_where_it_ends() {
    let q = dec(200).div(&dec(100));
    assert!(q.same_value(&dec(2)));
    let h = dec(100).div(&dec(200));
    assert!(h.same_value(&scaled(5, 1)));
    let e = dec(1).div(&dec(8));
    assert!(e.same_value(&scaled(125, 3)));
    let n = dec(6).negated_whole().div(&dec(3));
    assert!(n.same_value(&dec(2).negated_whole()));
}

#[test]
fn decimal_division_of_a_third_lies_near_a_third() {
    let t = dec(1).div(&dec(3));
    assert!(scaled(3333, 4).lt(&t));
    assert!(t.lt(&scaled(3334, 4)));
}

#[test]
fn decimal_division_by_zero_is_refused() {
    assert!(!dec(1).divides_by(&dec(0)));
    assert!(dec(1).checked_div(&dec(0)).is_none());
    assert!(dec(1).divides_by(&dec(4)));
    let q = dec(1).checked_div(&dec(4)).unwrap();
    assert!(q.same_value(&scaled(25, 2)));
}

#[test]
fn decimal_division_is_refused_beyond_the_limits() {
    let far = scaled(1, MAX_SCALE + 1);
    assert!(!dec(1).divides_by(&far));
    assert!(!far.divides_by(&dec(1)));
    assert!(dec(1).checked_div(&far).is_none());
    let deep = scaled(1, -MAX_SCALE - 1);
    assert!(!dec(1).divides_by(&deep));
    let at_limit = scaled(1, MAX_SCALE);
    assert!(at_limit.divides_by(&dec(1)));
    let wide = Decimal {
        unscaled: BigInteger { negative: false, magnitude: vec![1u8; MAX_DIVISOR_DIGITS + 1] },
        scale: 0,
    };
    assert!(!dec(1).divides_by(&wide));
    let fits = Decimal {
        unscaled: BigInteger { negative: false, magnitude: vec![1u8; MAX_DIVISOR_DIGITS] },
        scale: 0,
    };
    assert!(dec(1).divides_by(&fits));
}

#[test]
fn decimal_constants() {
    assert!(Decimal::zero().is_zero());
    assert!(!Decimal::one().is_zero());
    assert!(Decimal::one().is_positive());
    assert!(Decimal::one().same_value(&dec(1)));
    assert_eq!(Decimal::one().scale, 0);
    let five = Decimal::from_integer(BigInteger::from_u128(5));
    assert!(five.same_value(&dec(5)));
    let copy = five.clone();
    assert_eq!(copy.scale, five.scale);
    assert_eq!(copy.unscaled.magnitude, five.unscaled.magnitude);
}
