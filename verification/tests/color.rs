use rayrs::color::{quantize_channel, quantize_color, write_color, Pixel};

/// The quantization rule as the renderer states it on floats: clamp to
/// [0, 0.999], scale by 256, truncate toward zero.
fn reference_rule(c: f64) -> i32 {
    (256.0 * c.clamp(0.000, 0.999)) as i32
}

#[test]
fn quantize_matches_float_rule() {
    let samples: [f64; 28] = [
        0.0,
        -0.0,
        0.25,
        0.5,
        0.7,
        0.9,
        0.99,
        0.999,
        0.9989,
        0.9995,
        255.0 / 256.0,
        0.99609,
        1.0,
        2.0,
        1000.0,
        -1.0,
        -0.5,
        -1000.0,
        1e-8,
        1e-300,
        5e-324,
        f64::INFINITY,
        f64::NEG_INFINITY,
        f64::NAN,
        0.00390624,
        0.00390626,
        0.003906,
        0.1234567,
    ];
    for &c in samples.iter() {
        let expected = reference_rule(c);
        let got = quantize_channel(c.to_bits());
        assert_eq!(got as i32, expected, "channel value {}", c);
    }
}

#[test]
fn quantize_channel_edges() {
    assert_eq!(quantize_channel(1.0f64.to_bits()), 255);
    assert_eq!(quantize_channel(0.0f64.to_bits()), 0);
    assert_eq!(quantize_channel((-0.0f64).to_bits()), 0);
    assert_eq!(quantize_channel(0.5f64.to_bits()), 128);
    assert_eq!(quantize_channel(0.9f64.to_bits()), 230);
    assert_eq!(quantize_channel(0.999f64.to_bits()), 255);
    assert_eq!(quantize_channel(f64::NAN.to_bits()), 0);
    assert_eq!(quantize_channel(f64::INFINITY.to_bits()), 255);
    assert_eq!(quantize_channel(f64::NEG_INFINITY.to_bits()), 0);
}

#[test]
fn quantize_matches_float_rule_on_arbitrary_bit_patterns() {
    let mut x: u64 = 0;
    for _ in 0..20000 {
        x = x.wrapping_mul(6364136223846793005).wrapping_add(1442695040888963407);
        let expected = reference_rule(f64::from_bits(x));
        assert_eq!(quantize_channel(x) as i32, expected, "bit pattern {:#x}", x);
    }
}

/// The gamma map the renderer applies before quantizing: square root of
/// a positive channel, zero otherwise.
fn linear_to_gamma(linear: f64) -> f64 {
    if linear > 0.0 {
        linear.sqrt()
    } else {
        0.0
    }
}

#[test]
fn white_quantizes_to_full_and_black_to_zero() {
    let w = linear_to_gamma(1.0);
    let p = quantize_color(w.to_bits(), w.to_bits(), w.to_bits());
    assert_eq!(p, Pixel { r: 255, g: 255, b: 255 });
    let k = linear_to_gamma(0.0);
    let p = quantize_color(k.to_bits(), k.to_bits(), k.to_bits());
    assert_eq!(p, Pixel { r: 0, g: 0, b: 0 });
}

#[test]
fn write_color_formats_the_quantized_triple() {
    let mut out: Vec<u8> = Vec::new();
    write_color(&mut out, 1.0f64.to_bits(), 0.0f64.to_bits(), 0.5f64.to_bits());
    assert_eq!(out, b"255 0 128\n".to_vec());
    write_color(&mut out, 0.25f64.to_bits(), 0.7f64.to_bits(), 0.9f64.to_bits());
    assert_eq!(out, b"255 0 128\n64 179 230\n".to_vec());
}
