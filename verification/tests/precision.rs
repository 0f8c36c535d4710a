use aeroduct::precision::{
    binary16_to_f32, ddfs_per_word, f32_to_binary16, f32_to_fp16c, fp16c_to_f32, quantise_binary16,
    quantise_fp16c, wgsl_codec, DdfPrecision, FP16C_MAX, FP16C_MIN_NORMAL, FP16C_MIN_SUBNORMAL,
};

fn q(x: f32) -> f32 {
    f32::from_bits(quantise_fp16c(x.to_bits()))
}

fn qh(x: f32) -> f32 {
    f32::from_bits(quantise_binary16(x.to_bits()))
}

fn min_normal() -> f32 {
    f32::from_bits(FP16C_MIN_NORMAL)
}

fn max() -> f32 {
    f32::from_bits(FP16C_MAX)
}

fn sweep() -> Vec<f32> {
    let mut v = Vec::new();
    let mut x = min_normal();
    while x < max() {
        v.push(x);
        v.push(-x);
        x *= 1.000_37;
    }
    for k in -25i32..=0 {
        let p = 2f32.powi(k);
        for s in [1.0, 1.000_1, 0.999_9, 1.5, 1.999] {
            v.push(p * s);
            v.push(-p * s);
        }
    }
    v.push(0.0);
    v.push(-0.0);
    v
}

#[test]
fn fp16c_round_trips_within_half_an_ulp() {
    let mut worst = 0.0f32;
    let mut worst_at = 0.0f32;
    for x in sweep() {
        let back = q(x);
        assert!(back.is_finite(), "{x:e} decoded to {back}");
        if x == 0.0 {
            assert_eq!(back, 0.0);
            continue;
        }
        if x.abs() < min_normal() {
            assert!(
                (back - x).abs() <= f32::from_bits(FP16C_MIN_SUBNORMAL) * 0.5001,
                "subnormal {x:e} -> {back:e}"
            );
            continue;
        }
        let rel = ((back - x) / x).abs();
        if rel > worst {
            worst = rel;
            worst_at = x;
        }
    }
    let bound = 2f32.powi(-12);
    assert!(worst <= bound, "worst relative error {worst:e} at {worst_at:e}, want <= {bound:e}");
    assert!(worst > 1.0e-4, "worst error {worst:e} is suspiciously small");
}

#[test]
fn fp16c_beats_binary16_on_the_same_values() {
    let mut worst_c = 0.0f32;
    let mut worst_h = 0.0f32;
    let mut mean_c = 0.0f64;
    let mut mean_h = 0.0f64;
    for x in sweep() {
        if x.abs() < min_normal() {
            continue;
        }
        let ec = ((q(x) - x) / x).abs();
        let eh = ((qh(x) - x) / x).abs();
        worst_c = worst_c.max(ec);
        worst_h = worst_h.max(eh);
        mean_c += ec as f64;
        mean_h += eh as f64;
    }
    assert!(worst_h / worst_c > 1.9, "FP16C worst {worst_c:e} vs binary16 worst {worst_h:e}");
    assert!(mean_h / mean_c > 1.9, "FP16C mean {mean_c:e} vs binary16 mean {mean_h:e}");
}

#[test]
fn fp16c_saturates_instead_of_producing_infinities() {
    for x in [2.0f32, 10.0, 1e30, f32::INFINITY] {
        assert_eq!(q(x), max(), "{x} should clamp");
        assert_eq!(q(-x), -max(), "{} should clamp", -x);
    }
    assert!(q(f32::NAN).is_finite(), "NaN must not survive the codec");
}

#[test]
fn fp16c_encoding_has_the_documented_layout() {
    assert_eq!(f32_to_fp16c(1.0f32.to_bits()), 0x7800);
    assert_eq!(f32::from_bits(fp16c_to_f32(0x7800)), 1.0);
    assert_eq!(fp16c_to_f32(0x7fff), FP16C_MAX);
    assert_eq!(max(), 2.0 - 2f32.powi(-11));
    assert_eq!(fp16c_to_f32(0x0800), FP16C_MIN_NORMAL);
    assert_eq!(fp16c_to_f32(0x0001), FP16C_MIN_SUBNORMAL);
    for h in [0x0001u16, 0x0800, 0x1234, 0x7fff] {
        assert_eq!(f32::from_bits(fp16c_to_f32(h | 0x8000)), -f32::from_bits(fp16c_to_f32(h)));
    }
}

#[test]
fn every_fp16c_bit_pattern_round_trips_exactly() {
    for h in 0u32..=0xffff {
        let h = h as u16;
        let x = fp16c_to_f32(h);
        assert!(f32::from_bits(x).is_finite(), "pattern {h:#06x} decoded to {x}");
        assert_eq!(f32_to_fp16c(x), h, "pattern {h:#06x} did not survive re-encoding");
    }
}

#[test]
fn binary16_reference_codec_is_itself_correct() {
    assert_eq!(f32_to_binary16(1.0f32.to_bits()), 0x3c00);
    assert_eq!(f32::from_bits(binary16_to_f32(0x3c00)), 1.0);
    assert_eq!(f32::from_bits(binary16_to_f32(0x7bff)), 65504.0);
    assert_eq!(f32::from_bits(binary16_to_f32(0x0400)), 6.103_515_6e-5);
    assert_eq!(qh(65505.0), 65504.0, "just below the midpoint, still finite");
    assert_eq!(qh(70000.0), f32::INFINITY);
    assert_eq!(
        f32::from_bits(binary16_to_f32(0x0001)),
        5.960_464_5e-8,
        "smallest subnormal is 2^-24"
    );
}

#[test]
fn wgsl_source_mirrors_the_rust_codec() {
    let s = wgsl_codec();
    for needle in
        ["0x7fffu", "0x7ffu", "112u", "0x007fffffu", "125u - e", "firstLeadingBit"]
    {
        assert!(s.contains(needle), "WGSL codec is missing {needle}");
    }
    assert!(s.contains("fn f32_to_fp16c") && s.contains("fn fp16c_to_f32"));
}

#[test]
fn a_word_holds_one_or_two_populations() {
    assert_eq!(ddfs_per_word(DdfPrecision::Fp32), 1);
    assert_eq!(ddfs_per_word(DdfPrecision::Fp16c), 2);
}
