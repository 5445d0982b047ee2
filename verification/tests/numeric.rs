#![allow(non_snake_case)]

use rumi_protocol_backend::decimal::DecimalValue;
use rumi_protocol_backend::numeric::{Ratio, UsdIcp, E8S, ICP, ICUSD};

fn dec(mantissa: i128, scale: u32) -> DecimalValue {
    DecimalValue::new(mantissa, scale).unwrap()
}

#[test]
fn icp_mul_by_usdicp_available() {
    let ICP_token: ICP = 100_000_000_u64.into();
    let rate_amount: UsdIcp = dec(200_000, 1).into();
    assert_eq!(ICP_token * rate_amount, ICUSD::from(20_000 * E8S));
}

#[test]
fn ICP_mul_by_ratio() {
    let ICP_token: ICP = 100_000_000_u64.into();
    let ratio_amount: Ratio = dec(5, 1).into();
    assert_eq!(ICP_token * ratio_amount, ICP::from(50_000_000));
}

#[test]
fn ICP_mul_by_0() {
    let ICP_token: ICP = 100_000_000_u64.into();
    let ratio_amount: Ratio = dec(0, 1).into();
    assert_eq!(ICP_token * ratio_amount, ICP::from(0));
}

#[test]
fn ratio_mul_by_0() {
    let ICP_token: ICP = 0_u64.into();
    let ratio_amount: Ratio = dec(10, 1).into();
    assert_eq!(ICP_token * ratio_amount, ICP::from(0));
}

#[test]
fn tal_mul_by_ratio() {
    let tal_token: ICUSD = 100_u64.into();
    let ratio: Ratio = dec(5, 1).into();
    assert_eq!(tal_token * ratio, ICUSD::from(50_u64));
}

#[test]
fn tal_div_by_usdicp() {
    let rate: UsdIcp = dec(1000, 0).into();
    let icusd: ICUSD = (100 * 100_000_000).into();
    let result = icusd / rate;
    assert_eq!(ICP::from(10_000_000), result);
}

#[test]
fn checked_operations_agree_with_the_operators() {
    let rate: UsdIcp = dec(200_000, 1).into();
    let ratio: Ratio = dec(5, 1).into();
    assert_eq!(ICP::new(E8S).checked_mul_rate(rate), Some(ICP::new(E8S) * rate));
    assert_eq!(ICUSD::new(E8S).checked_mul_rate(rate), Some(ICUSD::new(E8S) * rate));
    assert_eq!(ICUSD::new(E8S).checked_div_rate(rate), Some(ICUSD::new(E8S) / rate));
    assert_eq!(ICUSD::new(E8S).checked_div_ratio(ratio), Some(ICUSD::new(E8S) / ratio));
    assert_eq!(ICUSD::new(7).checked_mul_ratio(ratio), Some(ICUSD::new(7) * ratio));
    assert_eq!(ICUSD::new(7).checked_div(ICUSD::new(2)), Some(ICUSD::new(7) / ICUSD::new(2)));
    assert_eq!(ICP::new(7).checked_div(ICP::new(2)), Some(ICP::new(7) / ICP::new(2)));
    assert_eq!(ratio.checked_mul(ratio), Some(ratio * ratio));
    assert_eq!(ratio.checked_add(ratio), Some(ratio + ratio));
    assert_eq!((ratio * ratio).0, dec(25, 2));
    assert_eq!(ICUSD::from(ICP::new(5)), ICUSD::new(5));
    // what overflows has no result
    let huge = Ratio::new(DecimalValue::max_value());
    assert_eq!(huge.checked_mul(huge), None);
    assert_eq!(huge.checked_add(huge), None);
    assert_eq!(ICUSD::new(u64::MAX).checked_mul_ratio(huge), None);
}

#[test]
fn decimal_parts_are_checked() {
    assert!(DecimalValue::new(1, 28).is_some());
    assert!(DecimalValue::new(1, 29).is_none());
    assert!(DecimalValue::new(79_228_162_514_264_337_593_543_950_335, 0).is_some());
    assert!(DecimalValue::new(79_228_162_514_264_337_593_543_950_336, 0).is_none());
    assert!(DecimalValue::new(-79_228_162_514_264_337_593_543_950_336, 0).is_none());
}

#[test]
fn product_of_small_decimals_is_exact() {
    // 1.33 x 2.5 = 3.325
    assert_eq!(dec(133, 2).checked_mul(dec(25, 1)), Some(dec(3325, 3)));
    // a zero operand gives zero with scale 0
    assert_eq!(dec(0, 5).checked_mul(dec(25, 1)), Some(dec(0, 0)));
    assert_eq!(dec(25, 1).checked_mul(dec(0, 3)), Some(dec(0, 0)));
    // negative operands
    assert_eq!(dec(-133, 2).checked_mul(dec(25, 1)), Some(dec(-3325, 3)));
}

#[test]
fn product_overflow_is_reported() {
    let max = DecimalValue::max_value();
    assert_eq!(max.checked_mul(dec(2, 0)), None);
}

#[test]
fn quotient_by_zero_is_none() {
    assert_eq!(dec(1, 0).checked_div(dec(0, 0)), None);
    assert_eq!(dec(0, 3).checked_div(dec(7, 1)), Some(dec(0, 0)));
    let q = dec(1, 0).checked_div(dec(4, 0)).unwrap();
    assert!(q.same_value(dec(25, 2)));
}

#[test]
fn sum_of_decimals() {
    let s = dec(5, 3).checked_add(dec(5, 2)).unwrap();
    assert!(s.same_value(dec(55, 3)));
}

#[test]
fn decimals_compare_by_value() {
    assert!(dec(15, 1).same_value(dec(150, 2)));
    assert!(dec(133, 2).lt(dec(15, 1)));
    assert!(!dec(15, 1).lt(dec(133, 2)));
    assert!(dec(-1, 0).lt(dec(0, 0)));
    assert!(dec(15, 1).le(dec(150, 2)));
    assert!(!dec(151, 2).le(dec(15, 1)));
}

#[test]
fn whole_part_as_u64() {
    assert_eq!(dec(12345, 2).to_u64(), Some(123));
    assert_eq!(dec(99, 2).to_u64(), Some(0));
    assert_eq!(dec(-1, 0).to_u64(), None);
    assert_eq!(dec(-5, 1).to_u64(), None);
    assert_eq!(DecimalValue::max_value().to_u64(), None);
    assert_eq!(DecimalValue::from_u64(u64::MAX).to_u64(), Some(u64::MAX));
    assert_eq!(DecimalValue::from_u64(7), dec(7, 0));
}

#[test]
fn pow_laws_on_values() {
    let r = Ratio::new(dec(94, 2));
    assert_eq!(r.pow(0).unwrap().0, dec(1, 0));
    assert_eq!(r.pow(1).unwrap().0, dec(94, 2));
    let square = r.pow(2).unwrap();
    assert_eq!(square.0, dec(8836, 4));
    let cube = r.pow(3).unwrap();
    assert_eq!(Some(cube), r.checked_mul(square));
    assert_eq!(cube.0, dec(830584, 6));
    // a zero with a scale: the first power has its value
    let z = Ratio::new(dec(0, 2));
    assert!(z.pow(1).unwrap().same_value(z));
}

#[test]
fn token_arithmetic() {
    let a = ICUSD::new(10);
    let b = ICUSD::new(4);
    assert_eq!(a + b, ICUSD::new(14));
    assert_eq!(a - b, ICUSD::new(6));
    assert_eq!(b.saturating_sub(a), ICUSD::new(0));
    assert_eq!(a.saturating_sub(b), ICUSD::new(6));
    assert_eq!(a.to_u64(), 10);
    assert_eq!(ICUSD::new(u64::MAX).checked_add(ICUSD::new(1)), None);
    assert_eq!(ICUSD::new(1).checked_add(ICUSD::new(2)), Some(ICUSD::new(3)));
}

#[test]
fn token_ratios() {
    let r = ICUSD::new(1_000).checked_div(ICUSD::new(10_000)).unwrap();
    assert!(r.same_value(Ratio::new(dec(1, 1))));
    assert!(ICUSD::new(1).checked_div(ICUSD::new(0)).is_none());
    assert!(ICP::new(1).checked_div(ICP::new(0)).is_none());
    let q = ICP::new(500_000).checked_div(ICP::new(800_000)).unwrap();
    assert!(q.same_value(Ratio::new(dec(625, 3))));
    assert!(ICUSD::new(5).checked_div_rate(UsdIcp::new(dec(0, 0))).is_none());
    assert!(ICUSD::new(5).checked_div_ratio(Ratio::new(dec(0, 0))).is_none());
    // 2 000 icUSD over a ratio of 1.33
    assert_eq!(
        ICUSD::new(2_000 * E8S).checked_div_ratio(Ratio::new(dec(133, 2))),
        Some(ICUSD::new(150_375_939_849))
    );
    // reading the rate the other way round
    assert_eq!(
        ICUSD::new(100 * E8S).checked_mul_rate(UsdIcp::new(dec(2, 0))),
        Some(ICP::new(200 * E8S))
    );
    assert_eq!(UsdIcp::new(dec(12345, 3)).to_e8s(), Some(1_234_500_000));
}

#[test]
fn amounts_max_and_min() {
    let a = Ratio::new(dec(5, 3));
    let b = Ratio::new(dec(50, 4));
    let c = Ratio::new(dec(5, 2));
    // equal by value: max gives the second, min the first
    assert_eq!(a.max(b).0, dec(50, 4));
    assert_eq!(a.min(b).0, dec(5, 3));
    assert_eq!(a.max(c).0, dec(5, 2));
    assert_eq!(a.min(c).0, dec(5, 3));
    assert!(a.lt(c));
    assert!(a.le(b));
}

#[test]
fn decimals_in_sixteen_bytes() {
    for d in [dec(0, 0), dec(133, 2), dec(-5, 28), dec(79_228_162_514_264_337_593_543_950_335, 0)] {
        let bytes = d.serialize();
        assert_eq!(DecimalValue::deserialize(bytes), d);
    }
    // scale 2 in the third byte of the flags, the mantissa after the flags
    assert_eq!(
        dec(133, 2).serialize(),
        [0, 0, 2, 0, 133, 0, 0, 0, 0, 0, 0, 0, 0, 0, 0, 0]
    );
    let price = UsdIcp::new(dec(12345, 3));
    assert_eq!(UsdIcp::deserialize(price.serialize()).0, dec(12345, 3));
    assert_eq!(price.to_array(), price.serialize());
    // whatever the bytes, what is read is a decimal
    assert!(DecimalValue::deserialize([255; 16]).is_valid());
}

#[test]
fn amounts_as_they_are_shown() {
    assert_eq!(ICP::new(150_000_000).display_parts(), (1, vec![5]));
    assert_eq!(ICP::new(100_000_000).display_parts(), (1, vec![0]));
    assert_eq!(ICP::new(1).display_parts(), (0, vec![0, 0, 0, 0, 0, 0, 0, 1]));
    assert_eq!(ICP::new(0).display_parts(), (0, vec![0]));
    assert_eq!(ICP::new(123_456_789_012).display_parts(), (1234, vec![5, 6, 7, 8, 9, 0, 1, 2]));
    assert_eq!(ICUSD::new(20_010_000_000).display_parts(), (200, vec![1]));
}

#[test]
fn products_at_the_edges_are_exact() {
    let max = 79_228_162_514_264_337_593_543_950_335i128;
    // the largest mantissa times one, with scales that add up to 28
    assert_eq!(dec(max, 14).checked_mul(dec(1, 14)), Some(dec(max, 28)));
    assert_eq!(dec(1, 28).checked_mul(dec(-max, 0)), Some(dec(-max, 28)));
    // two words times two words into three
    let a = 1i128 << 48;
    let b = 1i128 << 47;
    assert_eq!(dec(a, 3).checked_mul(dec(b, 4)), Some(dec(1i128 << 95, 7)));
    assert_eq!(dec(-a, 0).checked_mul(dec(-b, 0)), Some(dec(1i128 << 95, 0)));
    // three words times one
    let c = (1i128 << 80) + 12_345;
    assert_eq!(dec(c, 10).checked_mul(dec(65_535, 18)), Some(dec(c * 65_535, 28)));
    assert_eq!(dec(65_535, 18).checked_mul(dec(c, 10)), Some(dec(c * 65_535, 28)));
    // 3^60 = (3^30)^2 fits in 96 bits
    let p = 205_891_132_094_649i128;
    assert_eq!(dec(p, 9).checked_mul(dec(p, 19)), Some(dec(p * p, 28)));
}

#[test]
fn decimals_compare_across_scales() {
    let max = DecimalValue::max_value();
    assert!(dec(1, 28).lt(max));
    assert!(!max.lt(dec(1, 28)));
    assert!(dec(-1, 28).lt(dec(1, 28)));
    assert!(dec(0, 28).same_value(dec(0, 0)));
    assert!(dec(10, 1).same_value(dec(1, 0)));
    assert!(dec(79_228_162_514_264_337_593_543_950_335, 28).lt(dec(8, 0)));
    assert!(dec(-79_228_162_514_264_337_593_543_950_335, 0).lt(dec(-1, 28)));
    assert!(dec(133, 2).le(dec(1330, 3)));
    assert!(dec(1330, 3).le(dec(133, 2)));
}
