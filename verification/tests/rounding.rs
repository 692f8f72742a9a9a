use arcthumb::rounding::{round_bits, scale_floor, scale_round, DOUBLE, SINGLE};

#[test]
fn single_precision_conversion() {
    for x in [0u32, 1, 16_777_216, 16_777_217, 16_777_219, 33_554_433, 33_554_434, u32::MAX] {
        assert_eq!(round_bits(x as u128, SINGLE), x as f32 as u128, "{x}");
    }
}

#[test]
fn double_precision_conversion() {
    for x in [
        0u64,
        9_007_199_254_740_993,
        9_007_199_254_740_995,
        9_007_199_254_740_994,
        u64::MAX,
        12_345_678_901_234_567_890,
    ] {
        assert_eq!(round_bits(x as u128, DOUBLE), x as f64 as u128, "{x}");
    }
}

#[test]
fn scaling_matches_double_precision() {
    for d in (1..4000u32).step_by(7) {
        for n in [1u32, 2, 3, 479, 1280, 2559, 2_147_483_647] {
            let side = d / 2 + 1;
            let exact = side as f64 * (n as f64 / d as f64);
            assert_eq!(scale_floor(side, n, d), exact as u128, "{side} {n} {d}");
            assert_eq!(scale_round(side, n, d), exact.round() as u128, "{side} {n} {d}");
        }
    }
}

#[test]
fn scaling_is_not_exact_arithmetic() {
    // In exact arithmetic this would be 480.
    assert_eq!(scale_floor(537, 1280, 1432), 479);
    assert_eq!(scale_round(537, 1280, 1432), 480);
}
