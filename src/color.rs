use vstd::prelude::*;

use crate::error::LedError;

verus! {

/// Largest accepted hue, in degrees.
pub const HUE_MAX: u32 = 360;

/// Largest accepted saturation or value, in percent.
pub const PERCENT_MAX: u32 = 100;

/// One pixel: three 8-bit channels. Every byte triple is a valid colour.
#[derive(Clone, Copy, Debug, PartialEq, Eq, Structural)]
pub struct Rgb {
    pub r: u8,
    pub g: u8,
    pub b: u8,
}

/// Whether an HSV triple lies in the accepted domain (bounds inclusive).
pub open spec fn hsv_in_range(h: int, s: int, v: int) -> bool {
    h <= HUE_MAX && s <= PERCENT_MAX && v <= PERCENT_MAX
}

/// `60 * (1 - |((h / 60) mod 2) - 1|)`: the weight, out of 60, of the
/// secondary component for hue `h`.
pub open spec fn secondary_weight(h: int) -> int {
    let q = h % 120;
    if q <= 60 {
        q
    } else {
        120 - q
    }
}

/// Channel level of the dominant component: `floor((c + m) * 255)`, which is
/// `floor(v * 255)` with `v` as a fraction.
pub open spec fn primary_level(v: int) -> int {
    (255 * v) / 100
}

/// Channel level of the secondary component: `floor((x + m) * 255)`.
pub open spec fn secondary_level(h: int, s: int, v: int) -> int {
    (255 * (s * v * secondary_weight(h) + 60 * v * (100 - s))) / 600000
}

/// Channel level of the absent component: `floor(m * 255)`.
pub open spec fn base_level(s: int, v: int) -> int {
    (255 * (v * (100 - s))) / 10000
}

/// The standard HSV to RGB conversion, each channel truncated toward zero
/// from its exact rational value. The sextant of `h` decides which
/// component lands on which channel; the last one covers [300, 360].
pub open spec fn hsv_levels(h: int, s: int, v: int) -> (int, int, int) {
    let c = primary_level(v);
    let x = secondary_level(h, s, v);
    let z = base_level(s, v);
    if h < 60 {
        (c, x, z)
    } else if h < 120 {
        (x, c, z)
    } else if h < 180 {
        (z, c, x)
    } else if h < 240 {
        (z, x, c)
    } else if h < 300 {
        (x, z, c)
    } else {
        (c, z, x)
    }
}

/// The 24-bit hardware word of a colour: green in bits 16..23, red in bits
/// 8..15, blue in bits 0..7.
pub open spec fn packed_of(c: Rgb) -> u32 {
    (c.g as int * 65536 + c.r as int * 256 + c.b as int) as u32
}

impl Rgb {
    /// The three channels as integers, red first.
    pub open spec fn levels(self) -> (int, int, int) {
        (self.r as int, self.g as int, self.b as int)
    }

    pub fn new(r: u8, g: u8, b: u8) -> (c: Self)
        ensures
            c == (Rgb { r, g, b }),
    {
        Self { r, g, b }
    }

    /// A colour from a red, green, blue byte triple.
    pub fn from_slice(rgb: &[u8; 3]) -> (c: Self)
        ensures
            c == (Rgb { r: rgb@[0], g: rgb@[1], b: rgb@[2] }),
    {
        Self { r: rgb[0], g: rgb[1], b: rgb[2] }
    }

    /// Converts hue (degrees), saturation and value (percent) to RGB.
    pub fn from_hsv(h: u32, s: u32, v: u32) -> (res: Result<Self, LedError>)
        ensures
            match res {
                Ok(c) => hsv_in_range(h as int, s as int, v as int) && c.levels() == hsv_levels(
                    h as int,
                    s as int,
                    v as int,
                ),
                Err(e) => !hsv_in_range(h as int, s as int, v as int) && e == LedError::InvalidRange,
            },
    {
        if h > HUE_MAX || s > PERCENT_MAX || v > PERCENT_MAX {
            return Err(LedError::InvalidRange);
        }
        proof {
            lemma_hsv_levels_bounded(h as int, s as int, v as int);
        }
        let q: u32 = h % 120;
        let k: u32 = if q <= 60 {
            q
        } else {
            120 - q
        };
        assert(s * v <= 10000) by (nonlinear_arith)
            requires
                s <= 100,
                v <= 100,
        ;
        assert(s * v * k <= 600000) by (nonlinear_arith)
            requires
                s * v <= 10000,
                k <= 60,
        ;
        assert(v * (100 - s) <= 10000) by (nonlinear_arith)
            requires
                s <= 100,
                v <= 100,
        ;
        let c: u32 = (255 * v) / 100;
        let x: u32 = (255 * (s * v * k + 60 * (v * (100 - s)))) / 600000;
        let z: u32 = (255 * (v * (100 - s))) / 10000;
        assert(60 * (v * (100 - s)) == 60 * v * (100 - s)) by (nonlinear_arith);
        let c8 = c as u8;
        let x8 = x as u8;
        let z8 = z as u8;
        let rgb = if h < 60 {
            Rgb { r: c8, g: x8, b: z8 }
        } else if h < 120 {
            Rgb { r: x8, g: c8, b: z8 }
        } else if h < 180 {
            Rgb { r: z8, g: c8, b: x8 }
        } else if h < 240 {
            Rgb { r: z8, g: x8, b: c8 }
        } else if h < 300 {
            Rgb { r: x8, g: z8, b: c8 }
        } else {
            Rgb { r: c8, g: z8, b: x8 }
        };
        Ok(rgb)
    }

    /// The colour as the 24-bit word that is shifted out to the LED chip.
    pub fn to_packed_u32(&self) -> (p: u32)
        ensures
            p == packed_of(*self),
            p < 0x100_0000,
    {
        let g = self.g as u32;
        let r = self.r as u32;
        let b = self.b as u32;
        assert((g << 16u32) | (r << 8u32) | b == g * 65536 + r * 256 + b) by (bit_vector)
            requires
                g < 256,
                r < 256,
                b < 256,
        ;
        (g << 16u32) | (r << 8u32) | b
    }
}

/// Every channel that the HSV conversion yields on its domain fits in a byte.
pub proof fn lemma_hsv_levels_bounded(h: int, s: int, v: int)
    requires
        0 <= h,
        0 <= s,
        0 <= v,
        hsv_in_range(h, s, v),
    ensures
        0 <= hsv_levels(h, s, v).0 <= 255,
        0 <= hsv_levels(h, s, v).1 <= 255,
        0 <= hsv_levels(h, s, v).2 <= 255,
{
    let k = secondary_weight(h);
    assert(0 <= k <= 60);
    assert(0 <= s * v <= 10000) by (nonlinear_arith)
        requires
            0 <= s <= 100,
            0 <= v <= 100,
    ;
    assert(0 <= v * (100 - s) <= 10000) by (nonlinear_arith)
        requires
            0 <= s <= 100,
            0 <= v <= 100,
    ;
    assert(0 <= s * v * k + 60 * v * (100 - s) <= 600000) by (nonlinear_arith)
        requires
            0 <= s <= 100,
            0 <= v <= 100,
            0 <= k <= 60,
    ;
    assert(0 <= primary_level(v) <= 255);
    assert(0 <= secondary_level(h, s, v) <= 255) by (nonlinear_arith)
        requires
            0 <= s * v * k + 60 * v * (100 - s) <= 600000,
            secondary_level(h, s, v) == (255 * (s * v * k + 60 * v * (100 - s))) / 600000,
    ;
    assert(0 <= base_level(s, v) <= 255) by (nonlinear_arith)
        requires
            0 <= v * (100 - s) <= 10000,
            base_level(s, v) == (255 * (v * (100 - s))) / 10000,
    ;
}

/// Unpacking the hardware word by its bit layout gives back the channels.
pub proof fn lemma_packed_round_trip(c: Rgb)
    ensures
        (packed_of(c) >> 16u32) & 0xffu32 == c.g as u32,
        (packed_of(c) >> 8u32) & 0xffu32 == c.r as u32,
        packed_of(c) & 0xffu32 == c.b as u32,
        packed_of(c) < 0x100_0000,
{
    let g = c.g as u32;
    let r = c.r as u32;
    let b = c.b as u32;
    let p = packed_of(c);
    assert(p == g * 65536 + r * 256 + b);
    assert((p >> 16u32) & 0xffu32 == g && (p >> 8u32) & 0xffu32 == r && p & 0xffu32 == b
        && p < 0x100_0000) by (bit_vector)
        requires
            g < 256,
            r < 256,
            b < 256,
            p == g * 65536 + r * 256 + b,
    ;
}

} // verus!
