use megamerge::binary64::{exceeds, is_nan_pattern, maximum, minimum, INFINITY, SIGN_BIT};

fn samples() -> Vec<f64> {
    vec![
        0.0,
        -0.0,
        f64::from_bits(1),
        -f64::from_bits(1),
        f64::MIN_POSITIVE,
        -f64::MIN_POSITIVE,
        f64::from_bits(0x000f_ffff_ffff_ffff),
        0.5,
        -0.5,
        1.0,
        -1.0,
        1.0 + f64::EPSILON,
        5.0,
        -10.0,
        1e300,
        -1e300,
        f64::MAX,
        f64::MIN,
        f64::INFINITY,
        f64::NEG_INFINITY,
        f64::NAN,
        -f64::NAN,
        f64::from_bits(0x7ff0_0000_0000_0001),
    ]
}

#[test]
fn exceeds_agrees_with_the_hardware_on_every_pair() {
    for a in samples() {
        for b in samples() {
            assert_eq!(exceeds(a.to_bits(), b.to_bits()), a > b, "{:?} > {:?}", a, b);
        }
    }
}

#[test]
fn exceeds_is_strict() {
    for a in samples() {
        assert!(!exceeds(a.to_bits(), a.to_bits()));
    }
    assert!(!exceeds(5.0f64.to_bits(), 5.0f64.to_bits()));
    assert!(exceeds((5.0f64 + 8.0 * f64::EPSILON).to_bits(), 5.0f64.to_bits()));
}

#[test]
fn the_two_zeros_are_equal() {
    assert!(!exceeds(0.0f64.to_bits(), (-0.0f64).to_bits()));
    assert!(!exceeds((-0.0f64).to_bits(), 0.0f64.to_bits()));
    assert!(exceeds(f64::from_bits(1).to_bits(), (-0.0f64).to_bits()));
    assert!(exceeds(0.0f64.to_bits(), (-f64::from_bits(1)).to_bits()));
}

#[test]
fn a_nan_is_never_in_order() {
    let nan = f64::NAN.to_bits();
    for a in samples() {
        assert!(!exceeds(nan, a.to_bits()));
        assert!(!exceeds(a.to_bits(), nan));
    }
}

#[test]
fn infinity_exceeds_every_finite_value() {
    assert!(exceeds(INFINITY, f64::MAX.to_bits()));
    assert!(exceeds(f64::MIN.to_bits(), INFINITY | SIGN_BIT));
    assert!(!exceeds(INFINITY, INFINITY));
}

#[test]
fn nan_patterns_are_recognised() {
    for a in samples() {
        assert_eq!(is_nan_pattern(a.to_bits()), a.is_nan(), "{:?}", a);
    }
    assert!(!is_nan_pattern(INFINITY));
    assert!(!is_nan_pattern(INFINITY | SIGN_BIT));
    assert!(is_nan_pattern(INFINITY + 1));
    assert!(is_nan_pattern(u64::MAX));
}

#[test]
fn minimum_and_maximum_agree_with_the_hardware() {
    for a in samples() {
        for b in samples() {
            let least = f64::from_bits(minimum(a.to_bits(), b.to_bits()));
            let most = f64::from_bits(maximum(a.to_bits(), b.to_bits()));
            let expected_least = f64::min(a, b);
            let expected_most = f64::max(a, b);
            assert_eq!(least.is_nan(), expected_least.is_nan(), "min({:?}, {:?})", a, b);
            assert_eq!(most.is_nan(), expected_most.is_nan(), "max({:?}, {:?})", a, b);
            if !expected_least.is_nan() {
                assert!(least == expected_least, "min({:?}, {:?})", a, b);
            }
            if !expected_most.is_nan() {
                assert!(most == expected_most, "max({:?}, {:?})", a, b);
            }
        }
    }
}

#[test]
fn minimum_and_maximum_pick_the_exact_pattern() {
    let ten = 10.0f64.to_bits();
    let fifteen = 15.0f64.to_bits();
    let nan = f64::NAN.to_bits();
    assert_eq!(minimum(fifteen, ten), ten);
    assert_eq!(minimum(ten, fifteen), ten);
    assert_eq!(maximum(fifteen, ten), fifteen);
    assert_eq!(maximum(ten, fifteen), fifteen);
    assert_eq!(minimum(nan, ten), ten);
    assert_eq!(minimum(ten, nan), ten);
    assert_eq!(maximum(nan, ten), ten);
    assert_eq!(maximum(ten, nan), ten);
    assert_eq!(minimum(0.0f64.to_bits(), (-0.0f64).to_bits()), 0.0f64.to_bits());
    assert_eq!(maximum((-0.0f64).to_bits(), 0.0f64.to_bits()), (-0.0f64).to_bits());
}

fn next_pattern(state: &mut u64) -> u64 {
    *state ^= *state << 13;
    *state ^= *state >> 7;
    *state ^= *state << 17;
    *state
}

#[test]
fn exceeds_agrees_with_the_hardware_on_scattered_patterns() {
    let mut state: u64 = 0x9e37_79b9_7f4a_7c15;
    for round in 0..200_000u32 {
        let a = next_pattern(&mut state);
        let mut b = next_pattern(&mut state);
        if round % 4 == 1 {
            b = a ^ (1 << (round % 64));
        } else if round % 4 == 2 {
            b = a.wrapping_add(1);
        } else if round % 4 == 3 {
            b = a ^ SIGN_BIT;
        }
        assert_eq!(exceeds(a, b), f64::from_bits(a) > f64::from_bits(b), "{:#x} > {:#x}", a, b);
        assert_eq!(exceeds(b, a), f64::from_bits(b) > f64::from_bits(a), "{:#x} > {:#x}", b, a);
        assert_eq!(is_nan_pattern(a), f64::from_bits(a).is_nan(), "{:#x}", a);
    }
}

#[test]
fn minimum_and_maximum_agree_with_the_hardware_on_scattered_patterns() {
    let mut state: u64 = 0x2545_f491_4f6c_dd1d;
    for round in 0..200_000u32 {
        let a = next_pattern(&mut state);
        let b = if round % 2 == 0 { next_pattern(&mut state) } else { a ^ (1 << (round % 64)) };
        let least = f64::from_bits(minimum(a, b));
        let most = f64::from_bits(maximum(a, b));
        let expected_least = f64::min(f64::from_bits(a), f64::from_bits(b));
        let expected_most = f64::max(f64::from_bits(a), f64::from_bits(b));
        assert!(least == expected_least || (least.is_nan() && expected_least.is_nan()), "min({:#x}, {:#x})", a, b);
        assert!(most == expected_most || (most.is_nan() && expected_most.is_nan()), "max({:#x}, {:#x})", a, b);
    }
}
