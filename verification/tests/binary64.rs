use sav1n::binary64::{abs_lt, positive, to_u64};

fn samples() -> Vec<f64> {
    vec![
        0.0, -0.0, 1.0, -1.0, 0.5, 0.999_999, 1.5, 2.0, 3.999, 0.005, -0.005, 0.004_999,
        0.005_000_1, 1e-320, -1e-320, 4_503_599_627_370_495.5, 4_503_599_627_370_496.0,
        9_007_199_254_740_993.0, 1e15, 1e19, 1.8e19, 9_223_372_036_854_775_808.0,
        18_446_744_073_709_549_568.0, 18_446_744_073_709_551_616.0, 1e300, f64::MAX,
        f64::MIN_POSITIVE, f64::INFINITY, f64::NEG_INFINITY, f64::NAN, -f64::NAN, 1000.0, 999.0,
        123_456_789.75,
    ]
}

#[test]
fn truncation_agrees_with_the_cast() {
    for x in samples() {
        assert_eq!(to_u64(x.to_bits()), x as u64, "{x}");
    }
    assert_eq!(to_u64(0x7FF0_0000_0000_0001), 0);
    assert_eq!(to_u64(0x43E0_0000_0000_0000), 1u64 << 63);
    assert_eq!(to_u64(0x43EF_FFFF_FFFF_FFFF), 0xFFFF_FFFF_FFFF_F800);
    assert_eq!(to_u64(0x43F0_0000_0000_0000), u64::MAX);
    assert_eq!(to_u64(0x3FF0_0000_0000_0000), 1);
    assert_eq!(to_u64(0x3FEF_FFFF_FFFF_FFFF), 0);
    assert_eq!(to_u64(0x408F_4000_0000_0000), 1000);
}

#[test]
fn sign_agrees_with_the_comparison() {
    for x in samples() {
        assert_eq!(positive(x.to_bits()), x > 0.0, "{x}");
    }
}

#[test]
fn magnitude_order_agrees_with_the_comparison() {
    for a in samples() {
        for b in samples() {
            assert_eq!(abs_lt(a.to_bits(), b.to_bits()), a.abs() < b.abs(), "{a} {b}");
        }
    }
}
