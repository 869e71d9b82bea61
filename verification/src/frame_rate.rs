//! The frame-rate tags and the traits describing them: per-rate constants
//! and the normalization of arbitrary integers into a day's frame range.

use vstd::prelude::*;

use vstd::arithmetic::div_mod::lemma_fundamental_div_mod;
use vstd::arithmetic::div_mod::lemma_fundamental_div_mod_converse;

use crate::convert;
use crate::convert::fields_of;
use crate::convert::fields_valid;
use crate::convert::frame_number_of;
use crate::convert::max_frame_count;
use crate::convert::valid_rate;

verus! {

/// Trait describing frame rates. A type implementing it is a zero-sized
/// tag; the constants of the rate are exposed through its methods.
pub trait FrameRate: Sized {
    /// Nominal frames per second (spec-level constant).
    spec fn spec_fps() -> u32;

    /// Whether the rate uses drop-frame counting (spec-level constant).
    spec fn spec_drop_frame() -> bool;

    /// Every rate tag describes one of the supported broadcast rates.
    proof fn rate_valid()
        ensures
            valid_rate(Self::spec_fps() as int, Self::spec_drop_frame()),
    ;

    /// Nominal frames per second.
    fn fps() -> (r: u32)
        ensures
            r == Self::spec_fps(),
    ;

    /// Whether the rate uses drop-frame counting.
    fn drop_frame() -> (r: bool)
        ensures
            r == Self::spec_drop_frame(),
    ;

    /// Total count of valid frame numbers in a 24-hour day.
    fn max_frames() -> (r: u32)
        ensures
            r as int == max_frame_count(Self::spec_fps() as int, Self::spec_drop_frame()),
            1 <= r <= 5184000,
    {
        proof {
            Self::rate_valid();
        }
        convert::max_frames(Self::fps(), Self::drop_frame())
    }

    /// Given the elements of a timecode, calculate the frame offset from
    /// zero, or `None` when the fields are not a legal point on this
    /// rate's timeline.
    fn calculate_frame_number(hour: u32, minute: u32, second: u32, frame: u32) -> (r: Option<u32>)
        ensures
            match r {
                Some(n) => fields_valid(
                    Self::spec_fps() as int,
                    Self::spec_drop_frame(),
                    hour as int,
                    minute as int,
                    second as int,
                    frame as int,
                ) && n as int == frame_number_of(
                    Self::spec_fps() as int,
                    Self::spec_drop_frame(),
                    hour as int,
                    minute as int,
                    second as int,
                    frame as int,
                ),
                None => !fields_valid(
                    Self::spec_fps() as int,
                    Self::spec_drop_frame(),
                    hour as int,
                    minute as int,
                    second as int,
                    frame as int,
                ),
            },
    {
        proof {
            Self::rate_valid();
        }
        convert::calculate_frame_number(Self::fps(), Self::drop_frame(), hour, minute, second, frame)
    }

    /// Given an in-range frame number, calculate the fields of its time
    /// code.
    fn calculate_time_code(frame_number: u32) -> (r: (u8, u8, u8, u8))
        requires
            (frame_number as int) < max_frame_count(
                Self::spec_fps() as int,
                Self::spec_drop_frame(),
            ),
        ensures
            (r.0 as int, r.1 as int, r.2 as int, r.3 as int) == fields_of(
                Self::spec_fps() as int,
                Self::spec_drop_frame(),
                frame_number as int,
            ),
            fields_valid(
                Self::spec_fps() as int,
                Self::spec_drop_frame(),
                r.0 as int,
                r.1 as int,
                r.2 as int,
                r.3 as int,
            ),
            frame_number_of(
                Self::spec_fps() as int,
                Self::spec_drop_frame(),
                r.0 as int,
                r.1 as int,
                r.2 as int,
                r.3 as int,
            ) == frame_number as int,
    {
        proof {
            Self::rate_valid();
        }
        convert::calculate_time_code(Self::fps(), Self::drop_frame(), frame_number)
    }
}

/// Frame rate of 24 frames per second.
#[derive(Debug, PartialEq)]
pub struct FrameRate24;

/// Frame rate of 25 frames per second.
#[derive(Debug, PartialEq)]
pub struct FrameRate25;

/// Frame rate of 30 frames per second.
#[derive(Debug, PartialEq)]
pub struct FrameRate30;

/// Frame rate of 50 frames per second.
#[derive(Debug, PartialEq)]
pub struct FrameRate50;

/// Frame rate of 60 frames per second.
#[derive(Debug, PartialEq)]
pub struct FrameRate60;

/// Frame rate of 23.98 (24/1.001) frames per second, counted as 24.
#[derive(Debug, PartialEq)]
pub struct FrameRate2398;

/// Frame rate of 29.97 (30/1.001) frames per second, with drop-frame
/// counting.
#[derive(Debug, PartialEq)]
pub struct FrameRate2997;

/// Frame rate of 59.94 (60/1.001) frames per second, with drop-frame
/// counting.
#[derive(Debug, PartialEq)]
pub struct FrameRate5994;

impl FrameRate for FrameRate24 {
    open spec fn spec_fps() -> u32 {
        24
    }

    open spec fn spec_drop_frame() -> bool {
        false
    }

    proof fn rate_valid() {
    }

    fn fps() -> u32 {
        24
    }

    fn drop_frame() -> bool {
        false
    }
}

impl FrameRate for FrameRate25 {
    open spec fn spec_fps() -> u32 {
        25
    }

    open spec fn spec_drop_frame() -> bool {
        false
    }

    proof fn rate_valid() {
    }

    fn fps() -> u32 {
        25
    }

    fn drop_frame() -> bool {
        false
    }
}

impl FrameRate for FrameRate30 {
    open spec fn spec_fps() -> u32 {
        30
    }

    open spec fn spec_drop_frame() -> bool {
        false
    }

    proof fn rate_valid() {
    }

    fn fps() -> u32 {
        30
    }

    fn drop_frame() -> bool {
        false
    }
}

impl FrameRate for FrameRate50 {
    open spec fn spec_fps() -> u32 {
        50
    }

    open spec fn spec_drop_frame() -> bool {
        false
    }

    proof fn rate_valid() {
    }

    fn fps() -> u32 {
        50
    }

    fn drop_frame() -> bool {
        false
    }
}

impl FrameRate for FrameRate60 {
    open spec fn spec_fps() -> u32 {
        60
    }

    open spec fn spec_drop_frame() -> bool {
        false
    }

    proof fn rate_valid() {
    }

    fn fps() -> u32 {
        60
    }

    fn drop_frame() -> bool {
        false
    }
}

impl FrameRate for FrameRate2398 {
    open spec fn spec_fps() -> u32 {
        24
    }

    open spec fn spec_drop_frame() -> bool {
        false
    }

    proof fn rate_valid() {
    }

    fn fps() -> u32 {
        24
    }

    fn drop_frame() -> bool {
        false
    }
}

impl FrameRate for FrameRate2997 {
    open spec fn spec_fps() -> u32 {
        30
    }

    open spec fn spec_drop_frame() -> bool {
        true
    }

    proof fn rate_valid() {
    }

    fn fps() -> u32 {
        30
    }

    fn drop_frame() -> bool {
        true
    }
}

impl FrameRate for FrameRate5994 {
    open spec fn spec_fps() -> u32 {
        60
    }

    open spec fn spec_drop_frame() -> bool {
        true
    }

    proof fn rate_valid() {
    }

    fn fps() -> u32 {
        60
    }

    fn drop_frame() -> bool {
        true
    }
}

/// Integer types whose values can be reduced into a day's frame range,
/// wrapping negative values forward.
pub trait NormalizeFrameNumber: Copy {
    /// The mathematical value being normalized.
    spec fn as_delta(self) -> int;

    /// Reduce the value into `[0, max_frames)`, wrapping negative values
    /// forward.
    fn normalize(self, max_frames: u32) -> (r: u32)
        requires
            1 <= max_frames,
        ensures
            r as int == self.as_delta() % (max_frames as int),
    ;
}

/// Reduce a wide signed value into `[0, modulus)`, wrapping negative
/// values forward, in the Euclidean sense.
pub(crate) fn normalize_wide(value: i128, modulus: u32) -> (r: u32)
    requires
        1 <= modulus,
        i128::MIN < value,
    ensures
        r as int == (value as int) % (modulus as int),
{
    let m = modulus as u128;
    if value >= 0 {
        let rem = (value as u128) % m;
        proof {
            lemma_fundamental_div_mod(value as int, m as int);
        }
        rem as u32
    } else {
        let magnitude = (-value) as u128;
        let rem = magnitude % m;
        proof {
            lemma_fundamental_div_mod(magnitude as int, m as int);
            let quotient = (magnitude as int) / (m as int);
            assert(magnitude == (m as int) * quotient + rem);
            assert((-quotient) * (m as int) == -((m as int) * quotient) && (-quotient - 1) * (
            m as int) == -((m as int) * quotient) - (m as int)) by (nonlinear_arith);
            if rem == 0 {
                lemma_fundamental_div_mod_converse(value as int, m as int, -quotient, 0);
            } else {
                lemma_fundamental_div_mod_converse(
                    value as int,
                    m as int,
                    -quotient - 1,
                    m as int - rem,
                );
            }
        }
        if rem == 0 {
            0
        } else {
            (m - rem) as u32
        }
    }
}

impl NormalizeFrameNumber for u8 {
    open spec fn as_delta(self) -> int {
        self as int
    }

    fn normalize(self, max_frames: u32) -> u32 {
        normalize_wide(self as i128, max_frames)
    }
}

impl NormalizeFrameNumber for u16 {
    open spec fn as_delta(self) -> int {
        self as int
    }

    fn normalize(self, max_frames: u32) -> u32 {
        normalize_wide(self as i128, max_frames)
    }
}

impl NormalizeFrameNumber for u32 {
    open spec fn as_delta(self) -> int {
        self as int
    }

    fn normalize(self, max_frames: u32) -> u32 {
        normalize_wide(self as i128, max_frames)
    }
}

impl NormalizeFrameNumber for u64 {
    open spec fn as_delta(self) -> int {
        self as int
    }

    fn normalize(self, max_frames: u32) -> u32 {
        normalize_wide(self as i128, max_frames)
    }
}

impl NormalizeFrameNumber for usize {
    open spec fn as_delta(self) -> int {
        self as int
    }

    fn normalize(self, max_frames: u32) -> u32 {
        normalize_wide(self as i128, max_frames)
    }
}

impl NormalizeFrameNumber for i8 {
    open spec fn as_delta(self) -> int {
        self as int
    }

    fn normalize(self, max_frames: u32) -> u32 {
        normalize_wide(self as i128, max_frames)
    }
}

impl NormalizeFrameNumber for i16 {
    open spec fn as_delta(self) -> int {
        self as int
    }

    fn normalize(self, max_frames: u32) -> u32 {
        normalize_wide(self as i128, max_frames)
    }
}

impl NormalizeFrameNumber for i32 {
    open spec fn as_delta(self) -> int {
        self as int
    }

    fn normalize(self, max_frames: u32) -> u32 {
        normalize_wide(self as i128, max_frames)
    }
}

impl NormalizeFrameNumber for i64 {
    open spec fn as_delta(self) -> int {
        self as int
    }

    fn normalize(self, max_frames: u32) -> u32 {
        normalize_wide(self as i128, max_frames)
    }
}

impl NormalizeFrameNumber for isize {
    open spec fn as_delta(self) -> int {
        self as int
    }

    fn normalize(self, max_frames: u32) -> u32 {
        normalize_wide(self as i128, max_frames)
    }
}

} // verus!
