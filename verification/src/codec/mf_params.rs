//! The numbers that Media Foundation wants, apart from the calls that hand them over.
//!
//! All of it is packing bits and changing units. A mistake here raises no error anywhere: the
//! picture comes out in wrong colours or at the wrong time.

use vstd::prelude::*;

verus! {

/// Two numbers in one attribute: a frame size, a frame rate, a pixel's shape.
pub fn attribute_pair(high: u32, low: u32) -> (r: u64)
    ensures
        r == high * 0x1_0000_0000 + low,
{
    high as u64 * 0x1_0000_0000 + low as u64
}

/// Microseconds in units of 100 ns, Media Foundation's unit of time. Stays at the largest value
/// rather than turning negative.
pub fn hundred_ns(micros: u64) -> (r: i64)
    ensures
        r == (if micros * 10 <= i64::MAX {
            micros * 10
        } else {
            i64::MAX as int
        }),
{
    if micros <= 922_337_203_685_477_580 {
        (micros * 10) as i64
    } else {
        i64::MAX
    }
}

/// Which side of a colour conversion is meant.
#[derive(Debug, Clone, Copy, PartialEq, Eq, Structural)]
pub enum ColorUsage {
    /// A picture to look at; it may be prettified.
    Playback,
    /// A picture to go on with, unchanged.
    Processing,
}

/// Range of colour samples.
#[derive(Debug, Clone, Copy, PartialEq, Eq, Structural)]
pub enum NominalRange {
    Unknown,
    /// 16 to 235, as in video.
    Limited,
    /// 0 to 255, as on a computer's screen.
    Full,
}

impl NominalRange {
    pub open spec fn number(self) -> int {
        match self {
            NominalRange::Unknown => 0,
            NominalRange::Limited => 1,
            NominalRange::Full => 2,
        }
    }

    fn code(self) -> (r: u32)
        ensures
            r == self.number(),
    {
        match self {
            NominalRange::Unknown => 0,
            NominalRange::Limited => 1,
            NominalRange::Full => 2,
        }
    }
}

pub open spec fn bit(b: bool) -> int {
    if b {
        1
    } else {
        0
    }
}

/// `D3D11_VIDEO_PROCESSOR_COLOR_SPACE` in one number: bit 0 usage, bit 1 RGB range (0 is full),
/// bit 2 YCbCr matrix (1 is BT.709), bit 3 xvYCC (always off), bits 4 and 5 nominal range.
pub open spec fn color_bits(
    usage: ColorUsage,
    rgb_full: bool,
    bt709: bool,
    range: NominalRange,
) -> int {
    bit(usage is Processing) + 2 * bit(!rgb_full) + 4 * bit(bt709) + 16 * range.number()
}

pub fn color_space(usage: ColorUsage, rgb_full: bool, bt709: bool, range: NominalRange) -> (r: u32)
    ensures
        r == color_bits(usage, rgb_full, bt709, range),
{
    let usage_bit: u32 = match usage {
        ColorUsage::Playback => 0,
        ColorUsage::Processing => 1,
    };
    let rgb_bit: u32 = if rgb_full {
        0
    } else {
        1
    };
    let matrix_bit: u32 = if bt709 {
        1
    } else {
        0
    };
    usage_bit + 2 * rgb_bit + 4 * matrix_bit + 16 * range.code()
}

/// Every field can be read back out of the number, so different colour spaces get different
/// numbers.
pub proof fn color_fields(usage: ColorUsage, rgb_full: bool, bt709: bool, range: NominalRange)
    ensures
        ({
            let n = color_bits(usage, rgb_full, bt709, range);
            &&& n % 2 == bit(usage is Processing)
            &&& n / 2 % 2 == bit(!rgb_full)
            &&& n / 4 % 2 == bit(bt709)
            &&& n / 8 % 2 == 0
            &&& n / 16 == range.number()
        }),
{
}

/// The bits of a colour space one by one: 1 for what is not only shown, 2 for a limited range of
/// RGB, 4 for BT.709, 16 for video range and 32 for full range.
pub proof fn color_bits_one_by_one(
    usage: ColorUsage,
    rgb_full: bool,
    bt709: bool,
    range: NominalRange,
)
    ensures
        ({
            let n = color_bits(usage, rgb_full, bt709, range);
            &&& 0 <= n < 48
            &&& n % 2 == 1 <==> usage is Processing
            &&& n / 2 % 2 == 1 <==> !rgb_full
            &&& n / 4 % 2 == 1 <==> bt709
            &&& n / 8 % 2 == 0
            &&& n / 16 % 2 == 1 <==> range is Limited
            &&& n / 32 % 2 == 1 <==> range is Full
        }),
{
}

/// A pair has its first number in the upper half; a time is counted in tenths of a microsecond and
/// stops at the largest.
pub proof fn pairs_and_times_read_back(high: u32, low: u32, pair: u64, micros: u64, time: i64)
    requires
        call_ensures(attribute_pair, (high, low), pair),
        call_ensures(hundred_ns, (micros,), time),
    ensures
        pair / 0x1_0000_0000 == high,
        pair % 0x1_0000_0000 == low,
        micros <= 922_337_203_685_477_580 ==> time == 10 * micros,
        micros > 922_337_203_685_477_580 ==> time == 9_223_372_036_854_775_807,
{
}

} // verus!
