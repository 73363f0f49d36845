//! From a chromaticity and a luminance to the values the lamp takes.

use crate::fraction::{lemma_round_trip, lemma_steps_monotonic, Fraction};
use crate::gamut::PhilipsGamut;
use crate::gamut_laws::{lemma_closest_point, on_boundary};
use vstd::prelude::*;

verus! {

/// Number of steps of the lamp's chromaticity scale.
pub const CHROMA_STEPS: u16 = 65535;

/// Number of steps of the lamp's brightness scale.
pub const BRIGHTNESS_STEPS: u16 = 255;

/// Lowest brightness the firmware takes.
pub const BRIGHTNESS_MIN: u8 = 1;

/// Highest brightness the firmware takes.
pub const BRIGHTNESS_MAX: u8 = 245;

/// A colour as chromaticity on the lamp's grid and a luminance. The
/// luminance counts in a unit of the caller's choice.
#[derive(Clone, Copy, Debug)]
pub struct ChromaticityLuminance {
    pub x: u16,
    pub y: u16,
    pub luma: u32,
}

/// A colour whose chromaticity the lamp can show.
#[derive(Clone, Copy, Debug)]
pub struct ClampedColor {
    pub x: Fraction,
    pub y: Fraction,
    pub luma: u32,
}

/// A grid coordinate as a number of the unit interval.
pub open spec fn grid_fraction(v: u16) -> Fraction {
    Fraction { num: v as i64, den: 65535 }
}

/// Colours that can be brought into a gamut.
pub trait ClampToGamut<T> {
    /// The colour that `clamp_to` gives.
    spec fn clamped(&self, gamut: &PhilipsGamut) -> T;

    /// The colour itself where the gamut holds it, else the nearest colour
    /// of the gamut's boundary.
    fn clamp_to(&self, gamut: &PhilipsGamut) -> (c: T)
        ensures
            c == self.clamped(gamut),
    ;
}

impl ClampToGamut<ClampedColor> for ChromaticityLuminance {
    open spec fn clamped(&self, gamut: &PhilipsGamut) -> ClampedColor {
        if gamut.contains((self.x, self.y)) {
            ClampedColor { x: grid_fraction(self.x), y: grid_fraction(self.y), luma: self.luma }
        } else {
            let q = gamut.nearest((self.x, self.y));
            ClampedColor { x: q.0, y: q.1, luma: self.luma }
        }
    }

    fn clamp_to(&self, gamut: &PhilipsGamut) -> (c: ClampedColor) {
        if gamut.is_inside((self.x, self.y)) {
            ClampedColor {
                x: Fraction { num: self.x as i64, den: 65535 },
                y: Fraction { num: self.y as i64, den: 65535 },
                luma: self.luma,
            }
        } else {
            let closest_point = gamut.closest_point((self.x, self.y));
            ClampedColor { x: closest_point.0, y: closest_point.1, luma: self.luma }
        }
    }
}

/// Clamping leaves the luminance alone, keeps a colour of the gamut as it
/// is, and puts every other colour on the gamut's boundary.
pub proof fn lemma_clamp(c: ChromaticityLuminance, gamut: PhilipsGamut)
    ensures
        c.clamped(&gamut).luma == c.luma,
        gamut.contains((c.x, c.y)) ==> c.clamped(&gamut).x == grid_fraction(c.x) && c.clamped(
            &gamut,
        ).y == grid_fraction(c.y),
        !gamut.contains((c.x, c.y)) ==> on_boundary(
            gamut,
            (c.clamped(&gamut).x, c.clamped(&gamut).y),
        ),
{
    lemma_closest_point(gamut, (c.x, c.y));
}

/// The brightness byte for a fraction of the greatest luminance: the
/// fraction on the scale of 255 steps, kept within what the firmware takes.
pub open spec fn brightness_level(f: Fraction) -> int {
    let raw = f.steps_of(255);
    if raw < 1 {
        1
    } else if raw > 245 {
        245
    } else {
        raw
    }
}

/// The brightness byte for the luminance `luma` where `max_luma` is the
/// greatest that can be shown.
pub fn encode_brightness(luma: u32, max_luma: u32) -> (level: u8)
    ensures
        level == brightness_level(Fraction { num: luma as i64, den: max_luma as u64 }),
        1 <= level <= 245,
{
    brightness_byte(Fraction { num: luma as i64, den: max_luma as u64 })
}

/// The brightness byte for a fraction of the greatest luminance.
pub fn brightness_byte(brightness: Fraction) -> (level: u8)
    ensures
        level == brightness_level(brightness),
        1 <= level <= 245,
{
    let raw_val = brightness.to_steps(BRIGHTNESS_STEPS);
    if raw_val < 1 {
        BRIGHTNESS_MIN
    } else if raw_val > 245 {
        BRIGHTNESS_MAX
    } else {
        raw_val as u8
    }
}

/// The brightness byte never falls where the fraction grows, and is always
/// one that the firmware takes.
pub proof fn lemma_brightness_monotonic(a: Fraction, b: Fraction)
    requires
        a.finite(),
        b.finite(),
        a.le(b),
    ensures
        brightness_level(a) <= brightness_level(b),
        1 <= brightness_level(a) <= 245,
        1 <= brightness_level(b) <= 245,
{
    lemma_steps_monotonic(a, b, 255);
}

/// The two chromaticity coordinates on the lamp's scale of 65535 steps.
pub fn encode_chrominance(x: Fraction, y: Fraction) -> (xy: (u16, u16))
    ensures
        xy.0 == x.steps_of(65535),
        xy.1 == y.steps_of(65535),
{
    (x.to_steps(CHROMA_STEPS), y.to_steps(CHROMA_STEPS))
}

/// A coordinate of the unit interval, put on the lamp's scale and read back
/// as `value / 65535`, is within `1 / 65535` of itself: with the step `q`
/// and the coordinate `num / den`, `|q * den - 65535 * num| <= den`.
pub proof fn lemma_chrominance_round_trip(f: Fraction)
    requires
        f.in_unit(),
    ensures
        0 <= f.steps_of(65535) <= 65535,
        -(f.den as int) <= f.steps_of(65535) * f.den - 65535 * f.num <= f.den,
{
    lemma_round_trip(f, 65535);
    if 0 < f.num < f.den {
        crate::fraction::lemma_rounded_quotient_bound(f.num as int, f.den as int, 65535);
    }
}

/// A 16-bit value as two bytes, the low one first.
pub open spec fn le_bytes(v: u16) -> Seq<u8> {
    seq![(v % 256) as u8, (v / 256) as u8]
}

/// The payload of the colour endpoint: `x` then `y`, each low byte first.
pub open spec fn color_payload(x: u16, y: u16) -> Seq<u8> {
    le_bytes(x) + le_bytes(y)
}

/// Packs the two coordinates for the colour endpoint.
pub fn pack_chrominance(x: u16, y: u16) -> (buf: Vec<u8>)
    ensures
        buf@ == color_payload(x, y),
        buf.len() == 4,
        buf[0] + 256 * buf[1] == x,
        buf[2] + 256 * buf[3] == y,
{
    let mut buf: Vec<u8> = Vec::new();
    buf.push((x % 256) as u8);
    buf.push((x / 256) as u8);
    buf.push((y % 256) as u8);
    buf.push((y / 256) as u8);
    buf
}

} // verus!
