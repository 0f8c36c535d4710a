use aeroduct::binary32::{product, sum};

const ODD: [u32; 24] = [
    0,
    0x8000_0000,
    1,
    0x8000_0001,
    0x007f_ffff,
    0x0080_0000,
    0x8080_0001,
    0x3f80_0000,
    0xbf80_0000,
    0x3f80_0001,
    0x3f7f_ffff,
    0x4120_0000,
    0x3dcc_cccd,
    0xbdcc_cccd,
    0x4b80_0000,
    0x4b80_0001,
    0x7f7f_ffff,
    0xff7f_ffff,
    0x7f00_0000,
    0x7f80_0000,
    0xff80_0000,
    0x7fc0_0000,
    0x3300_0000,
    0x3380_0000,
];

fn same(got: u32, want: f32) -> bool {
    got == want.to_bits() || (f32::from_bits(got).is_nan() && want.is_nan())
}

fn check(a: u32, b: u32) {
    let (x, y) = (f32::from_bits(a), f32::from_bits(b));
    assert!(same(sum(a, b), x + y), "{x:e} + {y:e}");
    let (a, b) = (a % 0x8000_0000, b % 0x8000_0000);
    if a <= 0x7f80_0000 && 0 < b && b < 0x7f80_0000 {
        let (x, y) = (f32::from_bits(a), f32::from_bits(b));
        assert!(same(product(a, b), x * y), "{x:e} * {y:e}");
    }
}

#[test]
fn sums_and_products_are_those_of_the_hardware() {
    for a in ODD {
        for b in ODD {
            check(a, b);
        }
    }
    let mut seed = 0x2545_f491u32;
    let mut next = || {
        seed ^= seed << 13;
        seed ^= seed >> 17;
        seed ^= seed << 5;
        seed
    };
    for _ in 0..200_000 {
        let (a, b) = (next(), next());
        check(a, b);
        // Close exponents, where rounding and cancellation are.
        let near = (a & 0x7f80_0000).wrapping_add((b & 0x0180_0000).wrapping_sub(0x0100_0000));
        check(a, (near & 0x7f80_0000) | (b & 0x807f_ffff));
    }
}
