//! Exact colour arithmetic on 8-bit RGB pixels.
//!
//! Channel intensities are the fractions `channel / 255`. Every derived
//! quantity is kept as an exact fraction of integers, so the threshold tests
//! on a pixel have one answer on every machine.

use vstd::prelude::*;

verus! {

/// The fraction `num / den`. A denominator that is not positive marks a value
/// that does not exist (a division by zero in the defining formula).
#[derive(Clone, Copy, Debug, PartialEq, Eq, Structural)]
pub struct Ratio {
    pub num: i32,
    pub den: i32,
}

impl Ratio {
    /// The fraction has a value.
    pub open spec fn is_defined(self) -> bool {
        self.den > 0
    }

    /// The fraction has a value, and that value is below `p / q` (for `q > 0`).
    pub open spec fn below(self, p: int, q: int) -> bool {
        self.den > 0 && self.num * q < p * self.den
    }

    /// The fraction has a value, and that value is above `p / q` (for `q > 0`).
    pub open spec fn above(self, p: int, q: int) -> bool {
        self.den > 0 && self.num * q > p * self.den
    }

    /// Tests `self < p / q`. A fraction without a value is below nothing.
    pub fn is_below(&self, p: i32, q: i32) -> (b: bool)
        requires
            q > 0,
        ensures
            b == self.below(p as int, q as int),
    {
        if self.den <= 0 {
            return false;
        }
        assert(-0x4000_0000_0000_0000 <= self.num * q <= 0x4000_0000_0000_0000) by (nonlinear_arith)
            requires
                -0x8000_0000 <= self.num <= 0x7fff_ffff,
                0 < q <= 0x7fff_ffff,
        ;
        assert(-0x4000_0000_0000_0000 <= p * self.den <= 0x4000_0000_0000_0000) by (nonlinear_arith)
            requires
                -0x8000_0000 <= p <= 0x7fff_ffff,
                0 < self.den <= 0x7fff_ffff,
        ;
        let left: i64 = self.num as i64 * q as i64;
        let right: i64 = p as i64 * self.den as i64;
        left < right
    }

    /// Tests `self > p / q`. A fraction without a value is above nothing.
    pub fn is_above(&self, p: i32, q: i32) -> (b: bool)
        requires
            q > 0,
        ensures
            b == self.above(p as int, q as int),
    {
        if self.den <= 0 {
            return false;
        }
        assert(-0x4000_0000_0000_0000 <= self.num * q <= 0x4000_0000_0000_0000) by (nonlinear_arith)
            requires
                -0x8000_0000 <= self.num <= 0x7fff_ffff,
                0 < q <= 0x7fff_ffff,
        ;
        assert(-0x4000_0000_0000_0000 <= p * self.den <= 0x4000_0000_0000_0000) by (nonlinear_arith)
            requires
                -0x8000_0000 <= p <= 0x7fff_ffff,
                0 < self.den <= 0x7fff_ffff,
        ;
        let left: i64 = self.num as i64 * q as i64;
        let right: i64 = p as i64 * self.den as i64;
        left > right
    }
}

/// The largest of three channel values.
pub open spec fn channel_max(r: u8, g: u8, b: u8) -> u8 {
    if r >= g && r >= b {
        r
    } else if g >= b {
        g
    } else {
        b
    }
}

/// The smallest of three channel values.
pub open spec fn channel_min(r: u8, g: u8, b: u8) -> u8 {
    if r <= g && r <= b {
        r
    } else if g <= b {
        g
    } else {
        b
    }
}

fn max3(r: u8, g: u8, b: u8) -> (m: u8)
    ensures
        m == channel_max(r, g, b),
{
    if r >= g && r >= b {
        r
    } else if g >= b {
        g
    } else {
        b
    }
}

fn min3(r: u8, g: u8, b: u8) -> (m: u8)
    ensures
        m == channel_min(r, g, b),
{
    if r <= g && r <= b {
        r
    } else if g <= b {
        g
    } else {
        b
    }
}

/// A colour split into cyan, magenta, yellow and black.
#[derive(Clone, Copy, Debug, PartialEq, Eq, Structural)]
pub struct Cmyk {
    pub cyan: Ratio,
    pub magenta: Ratio,
    pub yellow: Ratio,
    pub black: Ratio,
}

/// A colour as hue (in degrees), saturation and value.
#[derive(Clone, Copy, Debug, PartialEq, Eq, Structural)]
pub struct Hsv {
    pub hue: Ratio,
    pub saturation: Ratio,
    pub value: Ratio,
}

/// The CMYK decomposition, with every intensity scaled by 255.
///
/// With `k = 255 - max(r, g, b)` the black share is `k / 255`, and each of
/// the three colour shares is `(255 - channel - k) / (255 - k)`. On a black
/// pixel `k` is 255 and the colour shares have no value.
pub open spec fn cmyk_of(r: u8, g: u8, b: u8) -> Cmyk {
    let k = 255 - channel_max(r, g, b);
    Cmyk {
        cyan: Ratio { num: (255 - r - k) as i32, den: (255 - k) as i32 },
        magenta: Ratio { num: (255 - g - k) as i32, den: (255 - k) as i32 },
        yellow: Ratio { num: (255 - b - k) as i32, den: (255 - k) as i32 },
        black: Ratio { num: k as i32, den: 255 },
    }
}

/// The hue in degrees, scaled by `delta = max - min`: sixty times the signed
/// offset of the hue inside its sector, plus the sector's base angle. In the
/// red sector, whose base is zero, an offset below zero wraps round the
/// circle.
pub open spec fn hue_numerator(r: u8, g: u8, b: u8) -> int {
    let top = channel_max(r, g, b);
    let delta = top - channel_min(r, g, b);
    if delta == 0 {
        0
    } else if top == r {
        if g >= b {
            60 * (g - b)
        } else {
            60 * (g - b) + 360 * delta
        }
    } else if top == g {
        60 * (b - r) + 120 * delta
    } else {
        60 * (r - g) + 240 * delta
    }
}

/// The HSV conversion by the six-sector hue formula.
///
/// Saturation is `(max - min) / max`, and zero on a black pixel. Value is
/// `max / 255`. Hue is zero on a grey pixel; otherwise it is
/// `hue_numerator / (max - min)` degrees, at least 0 and below 360.
pub open spec fn hsv_of(r: u8, g: u8, b: u8) -> Hsv {
    let top = channel_max(r, g, b);
    let delta = top - channel_min(r, g, b);
    Hsv {
        hue: Ratio {
            num: hue_numerator(r, g, b) as i32,
            den: if delta == 0 { 1 } else { delta as i32 },
        },
        saturation: Ratio {
            num: if top == 0 { 0 } else { delta as i32 },
            den: if top == 0 { 1 } else { top as i32 },
        },
        value: Ratio { num: top as i32, den: 255 },
    }
}

/// A pixel has the marker's colour when its cyan share is below one tenth and
/// its saturation is above two fifths.
pub open spec fn is_marker_color(r: u8, g: u8, b: u8) -> bool {
    cmyk_of(r, g, b).cyan.below(1, 10) && hsv_of(r, g, b).saturation.above(2, 5)
}

/// Converts an RGB colour to CMYK.
pub fn rgb_to_cmyk(r: u8, g: u8, b: u8) -> (c: Cmyk)
    ensures
        c == cmyk_of(r, g, b),
{
    let top: u8 = max3(r, g, b);
    let k: i32 = 255 - top as i32;
    Cmyk {
        cyan: Ratio { num: 255 - r as i32 - k, den: 255 - k },
        magenta: Ratio { num: 255 - g as i32 - k, den: 255 - k },
        yellow: Ratio { num: 255 - b as i32 - k, den: 255 - k },
        black: Ratio { num: k, den: 255 },
    }
}

/// Converts an RGB colour to HSV.
pub fn rgb_to_hsv(r: u8, g: u8, b: u8) -> (c: Hsv)
    ensures
        c == hsv_of(r, g, b),
{
    let top: u8 = max3(r, g, b);
    let low: u8 = min3(r, g, b);
    let delta: i32 = top as i32 - low as i32;
    let hue = if delta == 0 {
        Ratio { num: 0, den: 1 }
    } else if top == r {
        if g >= b {
            Ratio { num: 60 * (g as i32 - b as i32), den: delta }
        } else {
            Ratio { num: 60 * (g as i32 - b as i32) + 360 * delta, den: delta }
        }
    } else if top == g {
        Ratio { num: 60 * (b as i32 - r as i32) + 120 * delta, den: delta }
    } else {
        Ratio { num: 60 * (r as i32 - g as i32) + 240 * delta, den: delta }
    };
    let saturation = if top == 0 {
        Ratio { num: 0, den: 1 }
    } else {
        Ratio { num: delta, den: top as i32 }
    };
    Hsv { hue, saturation, value: Ratio { num: top as i32, den: 255 } }
}

/// Decides whether a pixel has the marker's colour.
pub fn is_marker_pixel(r: u8, g: u8, b: u8) -> (hit: bool)
    ensures
        hit == is_marker_color(r, g, b),
{
    let cmyk = rgb_to_cmyk(r, g, b);
    let hsv = rgb_to_hsv(r, g, b);
    cmyk.cyan.is_below(1, 10) && hsv.saturation.is_above(2, 5)
}

/// The marker test written out on the channels: the pixel is not black, its
/// red channel is within a tenth of the largest channel, and the spread of
/// the channels is more than two fifths of the largest.
pub proof fn lemma_marker_color_by_channels(r: u8, g: u8, b: u8)
    ensures
        is_marker_color(r, g, b) <==> {
            let top = channel_max(r, g, b);
            let low = channel_min(r, g, b);
            top > 0 && 10 * (top - r) < top && 5 * (top - low) > 2 * top
        },
{
}

/// A black pixel never has the marker's colour: its cyan share has no value
/// and its saturation is zero.
pub proof fn lemma_black_is_no_marker()
    ensures
        !is_marker_color(0, 0, 0),
        !cmyk_of(0, 0, 0).cyan.is_defined(),
        hsv_of(0, 0, 0).saturation == (Ratio { num: 0, den: 1 }),
{
}

/// The hue of every pixel is at least 0 and below 360 degrees.
pub proof fn lemma_hue_range(r: u8, g: u8, b: u8)
    ensures
        hsv_of(r, g, b).hue.is_defined(),
        0 <= hsv_of(r, g, b).hue.num < 360 * hsv_of(r, g, b).hue.den,
{
}

/// The hue of the six corners of the colour circle.
pub proof fn lemma_hue_of_corners()
    ensures
        hsv_of(255, 0, 0).hue == (Ratio { num: 0, den: 255 }),
        hsv_of(255, 255, 0).hue == (Ratio { num: 15300, den: 255 }),
        hsv_of(0, 255, 0).hue == (Ratio { num: 30600, den: 255 }),
        hsv_of(0, 255, 255).hue == (Ratio { num: 45900, den: 255 }),
        hsv_of(0, 0, 255).hue == (Ratio { num: 61200, den: 255 }),
        hsv_of(255, 0, 255).hue == (Ratio { num: 76500, den: 255 }),
{
}

} // verus!
