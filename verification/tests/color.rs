use hueble_rs::color::{
    brightness_byte, encode_brightness, encode_chrominance, pack_chrominance,
    ChromaticityLuminance, ClampToGamut,
};
use hueble_rs::fraction::Fraction;
use hueble_rs::gamut::PhilipsGamut;

fn frac(num: i64, den: u64) -> Fraction {
    Fraction { num, den }
}

#[test]
fn brightness_is_scaled_rounded_and_kept_in_range() {
    assert_eq!(encode_brightness(1, 2), 128);
    assert_eq!(encode_brightness(1, 3), 85);
    assert_eq!(encode_brightness(2, 3), 170);
    assert_eq!(encode_brightness(245, 255), 245);
    assert_eq!(encode_brightness(244, 255), 244);
    assert_eq!(encode_brightness(2, 255), 2);
}

#[test]
fn brightness_never_leaves_what_the_firmware_takes() {
    assert_eq!(encode_brightness(0, 1), 1);
    assert_eq!(encode_brightness(1, 510), 1);
    assert_eq!(encode_brightness(1, 255), 1);
    assert_eq!(encode_brightness(1, 1), 245);
    assert_eq!(encode_brightness(246, 255), 245);
    assert_eq!(encode_brightness(7, 3), 245);
    assert_eq!(encode_brightness(u32::MAX, 1), 245);
    assert_eq!(encode_brightness(0, u32::MAX), 1);
    assert_eq!(brightness_byte(frac(-1, 2)), 1);
    assert_eq!(brightness_byte(frac(i64::MIN, u64::MAX)), 1);
    assert_eq!(brightness_byte(frac(i64::MAX, u64::MAX)), 127);
    assert_eq!(brightness_byte(frac(i64::MAX, 1)), 245);
}

#[test]
fn brightness_without_a_greatest_luminance() {
    assert_eq!(encode_brightness(1, 0), 245);
    assert_eq!(encode_brightness(0, 0), 1);
    assert_eq!(brightness_byte(frac(-1, 0)), 1);
}

#[test]
fn brightness_rounds_halves_upwards() {
    // 255 * 1/510 is one half
    assert_eq!(Fraction { num: 1, den: 510 }.to_steps(255), 1);
    assert_eq!(Fraction { num: 1, den: 511 }.to_steps(255), 0);
    assert_eq!(Fraction { num: 3, den: 510 }.to_steps(255), 2);
    assert_eq!(Fraction { num: 2451, den: 2550 }.to_steps(255), 245);
    assert_eq!(Fraction { num: 2455, den: 2550 }.to_steps(255), 246);
}

#[test]
fn brightness_is_monotonic() {
    let mut last = 0u8;
    for luma in 0..=2000u32 {
        let level = encode_brightness(luma, 1000);
        assert!(1 <= level && level <= 245);
        assert!(last <= level);
        last = level;
    }
    assert_eq!(last, 245);
    // across denominators
    assert!(brightness_byte(frac(1, 3)) <= brightness_byte(frac(334, 1000)));
    assert!(brightness_byte(frac(333, 1000)) <= brightness_byte(frac(1, 3)));
}

#[test]
fn chrominance_is_clamped_scaled_and_rounded() {
    assert_eq!(encode_chrominance(frac(1, 2), frac(1, 3)), (32768, 21845));
    assert_eq!(encode_chrominance(frac(0, 1), frac(1, 1)), (0, 65535));
    assert_eq!(encode_chrominance(frac(-1, 2), frac(3, 2)), (0, 65535));
    assert_eq!(encode_chrominance(frac(1, 131070), frac(1, 131071)), (1, 0));
    assert_eq!(encode_chrominance(frac(2, 3), frac(245, 255)), (43690, 62965));
    assert_eq!(encode_chrominance(frac(1, 0), frac(0, 0)), (65535, 0));
    assert_eq!(encode_chrominance(frac(-1, 0), frac(i64::MAX, u64::MAX)), (0, 32767));
}

#[test]
fn chrominance_read_back_is_within_one_step() {
    for den in [1u64, 2, 3, 7, 1000, 65535, 65536, 1 << 24, 4_294_967_291] {
        for k in 0..=50u64 {
            let num = (den / 50 * k).min(den);
            let (q, _) = encode_chrominance(frac(num as i64, den), frac(0, 1));
            // |q / 65535 - num / den| <= 1 / 65535
            let gap = (q as i128 * den as i128 - 65535 * num as i128).abs();
            assert!(gap <= den as i128);
            assert!(2 * gap <= den as i128);
        }
    }
}

#[test]
fn grid_values_encode_to_themselves() {
    for v in [0u16, 1, 2, 255, 256, 32767, 32768, 65534, 65535] {
        assert_eq!(encode_chrominance(frac(v as i64, 65535), frac(v as i64, 65535)), (v, v));
    }
}

#[test]
fn chrominance_is_packed_low_byte_first() {
    assert_eq!(pack_chrominance(0x1234, 0xABCD), vec![0x34, 0x12, 0xCD, 0xAB]);
    assert_eq!(pack_chrominance(0, 65535), vec![0, 0, 255, 255]);
    assert_eq!(pack_chrominance(256, 1), vec![0, 1, 1, 0]);
}

#[test]
fn colour_of_the_gamut_is_left_alone() {
    let gamut = PhilipsGamut { red: (0, 0), green: (0, 100), blue: (100, 0) };
    let c = ChromaticityLuminance { x: 10, y: 20, luma: 77 }.clamp_to(&gamut);
    assert_eq!((c.x.num, c.x.den), (10, 65535));
    assert_eq!((c.y.num, c.y.den), (20, 65535));
    assert_eq!(c.luma, 77);
}

#[test]
fn colour_outside_the_gamut_goes_to_its_boundary() {
    let gamut = PhilipsGamut { red: (0, 0), green: (0, 100), blue: (100, 0) };
    let c = ChromaticityLuminance { x: 200, y: 200, luma: 12345 }.clamp_to(&gamut);
    assert_eq!((c.x.num, c.x.den), (1_000_000, 20_000 * 65535));
    assert_eq!((c.y.num, c.y.den), (1_000_000, 20_000 * 65535));
    assert_eq!(c.luma, 12345);
    assert_eq!(encode_chrominance(c.x, c.y), (50, 50));
    // the far edge itself counts as outside and is projected onto itself
    let c = ChromaticityLuminance { x: 50, y: 50, luma: 1 }.clamp_to(&gamut);
    assert_eq!(encode_chrominance(c.x, c.y), (50, 50));
    assert_eq!(c.x.den, 20_000 * 65535);
}
