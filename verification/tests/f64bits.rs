use rayrs::f64bits::{f64_le, f64_lt};
use rayrs::vec3::is_near_zero;

const SAMPLES: [f64; 18] = [
    0.0,
    -0.0,
    1.0,
    -1.0,
    0.5,
    -0.5,
    2.0,
    1e-300,
    -1e-300,
    5e-324,
    -5e-324,
    1e8,
    f64::INFINITY,
    f64::NEG_INFINITY,
    f64::NAN,
    0.999,
    1e-8,
    -1e-8,
];

#[test]
fn lt_matches_float_comparison_on_all_pairs() {
    for &a in SAMPLES.iter() {
        for &b in SAMPLES.iter() {
            assert_eq!(f64_lt(a.to_bits(), b.to_bits()), a < b, "{} < {}", a, b);
        }
    }
}

#[test]
fn le_matches_float_comparison_on_all_pairs() {
    for &a in SAMPLES.iter() {
        for &b in SAMPLES.iter() {
            assert_eq!(f64_le(a.to_bits(), b.to_bits()), a <= b, "{} <= {}", a, b);
        }
    }
}

#[test]
fn comparisons_match_on_arbitrary_bit_patterns() {
    let mut x: u64 = 0;
    let mut prev: u64 = 0x3ff0_0000_0000_0000;
    for _ in 0..20000 {
        x = x.wrapping_mul(6364136223846793005).wrapping_add(1442695040888963407);
        let a = f64::from_bits(prev);
        let b = f64::from_bits(x);
        assert_eq!(f64_lt(prev, x), a < b, "{:#x} {:#x}", prev, x);
        assert_eq!(f64_le(prev, x), a <= b, "{:#x} {:#x}", prev, x);
        prev = x;
    }
}

#[test]
fn zeros_of_both_signs_are_one_value() {
    let pz = 0.0f64.to_bits();
    let nz = (-0.0f64).to_bits();
    assert!(f64_le(pz, nz));
    assert!(f64_le(nz, pz));
    assert!(!f64_lt(nz, pz));
    assert!(!f64_lt(pz, nz));
}

/// The near-zero guard of the vector kernel: every component's
/// magnitude below 1e-8, as the scatter code tests it on floats.
fn reference_near_zero(x: f64, y: f64, z: f64) -> bool {
    const EPS: f64 = 1.0E-8;
    x.abs() < EPS && y.abs() < EPS && z.abs() < EPS
}

#[test]
fn near_zero_matches_float_guard() {
    let cases: [(f64, f64, f64); 8] = [
        (0.0, 0.0, 0.0),
        (1e-9, -1e-9, 1e-9),
        (1e-8, 0.0, 0.0),
        (0.9e-8, 0.99e-8, -0.5e-8),
        (1.0, 0.0, 0.0),
        (0.0, f64::NAN, 0.0),
        (-0.0, 5e-324, -5e-324),
        (2e-8, 1e-9, 0.0),
    ];
    for &(x, y, z) in cases.iter() {
        assert_eq!(
            is_near_zero(x.to_bits(), y.to_bits(), z.to_bits()),
            reference_near_zero(x, y, z),
            "({}, {}, {})",
            x,
            y,
            z
        );
    }
}
