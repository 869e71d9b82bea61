//! SMPTE video timecodes: conversion between absolute frame numbers and
//! hour/minute/second/frame fields for the broadcast frame rates, including
//! the drop-frame rates 29.97 and 59.94, together with parsing and formatting
//! of the canonical text notation.

use vstd::prelude::*;

use vstd::arithmetic::div_mod::lemma_add_mod_noop_right;
use vstd::arithmetic::div_mod::lemma_mod_add_multiples_vanish;
use vstd::arithmetic::div_mod::lemma_mod_bound;
use vstd::arithmetic::div_mod::lemma_small_mod;
use vstd::arithmetic::div_mod::lemma_sub_mod_noop_right;

pub mod convert;
pub mod frame_rate;
pub mod text;

pub use frame_rate::FrameRate;
pub use frame_rate::FrameRate2398;
pub use frame_rate::FrameRate24;
pub use frame_rate::FrameRate25;
pub use frame_rate::FrameRate2997;
pub use frame_rate::FrameRate30;
pub use frame_rate::FrameRate50;
pub use frame_rate::FrameRate5994;
pub use frame_rate::FrameRate60;
pub use frame_rate::NormalizeFrameNumber;

use convert::fields_of;
use convert::fields_valid;
use convert::frame_number_of;
use convert::max_frame_count;

verus! {

/// All `Result` values returned by this library use this for error values.
#[derive(Debug)]
pub struct TimecodeError {
    pub kind: TimecodeErrorKind,
}

/// Error values for this library.
#[derive(Debug, PartialEq, Eq, Structural, Clone, Copy)]
pub enum TimecodeErrorKind {
    /// Malformed text: wrong length, non-digit characters, or inconsistent
    /// separators.
    InvalidFormat,

    /// The text notation signals drop-frame for a rate that does not
    /// support it.
    InvalidDropFrameFormat,

    /// Syntactically well-formed fields that are not a legal point on the
    /// rate's timeline, such as a frame value that falls in a dropped gap.
    InvalidTimecode,

    /// A frame number at or above the rate's maximum was handed to the
    /// inverse conversion without prior normalization.
    FrameNumberOutOfRange,
}

/// Representation of a timecode as a struct, generic over types
/// implementing the trait [`FrameRate`].
///
/// The four display fields and the absolute frame number are always the
/// mutual conversion of each other for the tagged rate; see
/// [`Timecode::well_formed`].
#[derive(Debug)]
pub struct Timecode<FrameRate> {
    /// Frame number: the count of frames after `00:00:00:00`.
    pub frame_number: u32,
    pub hour: u8,
    pub minute: u8,
    pub second: u8,
    pub frame: u8,
    /// Zero-sized tag binding the value to its rate.
    pub frame_rate: core::marker::PhantomData<FrameRate>,
}

impl<T> PartialEq for Timecode<T> {
    fn eq(&self, other: &Self) -> (r: bool) {
        self.frame_number == other.frame_number && self.hour == other.hour && self.minute
            == other.minute && self.second == other.second && self.frame == other.frame
    }
}

impl<T> vstd::std_specs::cmp::PartialEqSpecImpl for Timecode<T> {
    open spec fn obeys_eq_spec() -> bool {
        true
    }

    open spec fn eq_spec(&self, other: &Self) -> bool {
        self.frame_number == other.frame_number && self.hour == other.hour && self.minute
            == other.minute && self.second == other.second && self.frame == other.frame
    }
}

impl<T: FrameRate> Timecode<T> {
    /// The invariant of a timecode: its fields are a legal point on the
    /// rate's timeline and its frame number is their forward conversion.
    pub open spec fn well_formed(self) -> bool {
        &&& fields_valid(
            T::spec_fps() as int,
            T::spec_drop_frame(),
            self.hour as int,
            self.minute as int,
            self.second as int,
            self.frame as int,
        )
        &&& self.frame_number as int == frame_number_of(
            T::spec_fps() as int,
            T::spec_drop_frame(),
            self.hour as int,
            self.minute as int,
            self.second as int,
            self.frame as int,
        )
    }

    /// Returns a timecode with the given hour/minute/second/frame fields,
    /// or an `InvalidTimecode` error when the fields are not a legal point
    /// on the rate's timeline.
    pub fn new(hour: u8, minute: u8, second: u8, frame: u8) -> (r: Result<
        Timecode<T>,
        TimecodeError,
    >)
        ensures
            match r {
                Ok(tc) => {
                    &&& fields_valid(
                        T::spec_fps() as int,
                        T::spec_drop_frame(),
                        hour as int,
                        minute as int,
                        second as int,
                        frame as int,
                    )
                    &&& tc.hour == hour
                    &&& tc.minute == minute
                    &&& tc.second == second
                    &&& tc.frame == frame
                    &&& tc.frame_number as int == frame_number_of(
                        T::spec_fps() as int,
                        T::spec_drop_frame(),
                        hour as int,
                        minute as int,
                        second as int,
                        frame as int,
                    )
                    &&& tc.well_formed()
                },
                Err(e) => {
                    &&& !fields_valid(
                        T::spec_fps() as int,
                        T::spec_drop_frame(),
                        hour as int,
                        minute as int,
                        second as int,
                        frame as int,
                    )
                    &&& e.kind == TimecodeErrorKind::InvalidTimecode
                },
            },
    {
        let result = T::calculate_frame_number(
            hour as u32,
            minute as u32,
            second as u32,
            frame as u32,
        );
        match result {
            Some(frame_number) => Ok(
                Timecode {
                    frame_number,
                    hour,
                    minute,
                    second,
                    frame,
                    frame_rate: core::marker::PhantomData,
                },
            ),
            None => Err(TimecodeError { kind: TimecodeErrorKind::InvalidTimecode }),
        }
    }

    /// Create a timecode with the given frame number, normalized into
    /// `[0, max_frame_count)` with negative values wrapping forward.
    pub fn from_frame_number<N: NormalizeFrameNumber>(frame_number: N) -> (r: Timecode<T>)
        ensures
            r.well_formed(),
            r.frame_number as int == frame_number.as_delta() % max_frame_count(
                T::spec_fps() as int,
                T::spec_drop_frame(),
            ),
            (r.hour as int, r.minute as int, r.second as int, r.frame as int) == fields_of(
                T::spec_fps() as int,
                T::spec_drop_frame(),
                r.frame_number as int,
            ),
    {
        let max = T::max_frames();
        let normalized = frame_number.normalize(max);
        proof {
            T::rate_valid();
            lemma_mod_bound(frame_number.as_delta(), max as int);
        }
        let (hour, minute, second, frame) = T::calculate_time_code(normalized);
        Timecode {
            frame_number: normalized,
            hour,
            minute,
            second,
            frame,
            frame_rate: core::marker::PhantomData,
        }
    }

    /// Make a new timecode by adding a number of frames, wrapping at the
    /// end of the day.
    pub fn add<N: NormalizeFrameNumber>(self, frames: N) -> (r: Timecode<T>)
        ensures
            r.well_formed(),
            r.frame_number as int == (self.frame_number + frames.as_delta()) % max_frame_count(
                T::spec_fps() as int,
                T::spec_drop_frame(),
            ),
            (r.hour as int, r.minute as int, r.second as int, r.frame as int) == fields_of(
                T::spec_fps() as int,
                T::spec_drop_frame(),
                r.frame_number as int,
            ),
    {
        let max = T::max_frames();
        let delta = frames.normalize(max);
        proof {
            T::rate_valid();
            lemma_mod_bound(frames.as_delta(), max as int);
            lemma_add_mod_noop_right(
                self.frame_number as int,
                frames.as_delta(),
                max as int,
            );
        }
        let total = (self.frame_number as u64 + delta as u64) % (max as u64);
        proof {
            lemma_mod_bound(self.frame_number + delta, max as int);
            lemma_small_mod(total as nat, max as nat);
        }
        Self::from_frame_number(total as u32)
    }

    /// Make a new timecode by removing a number of frames, wrapping at the
    /// start of the day.
    pub fn sub<N: NormalizeFrameNumber>(self, frames: N) -> (r: Timecode<T>)
        ensures
            r.well_formed(),
            r.frame_number as int == (self.frame_number - frames.as_delta()) % max_frame_count(
                T::spec_fps() as int,
                T::spec_drop_frame(),
            ),
            (r.hour as int, r.minute as int, r.second as int, r.frame as int) == fields_of(
                T::spec_fps() as int,
                T::spec_drop_frame(),
                r.frame_number as int,
            ),
    {
        let max = T::max_frames();
        let delta = frames.normalize(max);
        proof {
            T::rate_valid();
            lemma_mod_bound(frames.as_delta(), max as int);
            lemma_sub_mod_noop_right(
                self.frame_number as int,
                frames.as_delta(),
                max as int,
            );
            lemma_mod_add_multiples_vanish(
                self.frame_number - (frames.as_delta() % (max as int)),
                max as int,
            );
        }
        let total = (self.frame_number as u64 + max as u64 - delta as u64) % (max as u64);
        proof {
            lemma_mod_bound(self.frame_number + max - delta, max as int);
            lemma_small_mod(total as nat, max as nat);
        }
        Self::from_frame_number(total as u32)
    }

    /// Add a number of frames to this timecode in place.
    pub fn add_assign<N: NormalizeFrameNumber>(&mut self, frames: N)
        ensures
            final (self).well_formed(),
            final (self).frame_number as int == (old(self).frame_number + frames.as_delta())
                % max_frame_count(T::spec_fps() as int, T::spec_drop_frame()),
            (
                final (self).hour as int,
                final (self).minute as int,
                final (self).second as int,
                final (self).frame as int,
            ) == fields_of(
                T::spec_fps() as int,
                T::spec_drop_frame(),
                final (self).frame_number as int,
            ),
    {
        let current = Timecode::<T> {
            frame_number: self.frame_number,
            hour: self.hour,
            minute: self.minute,
            second: self.second,
            frame: self.frame,
            frame_rate: core::marker::PhantomData,
        };
        *self = current.add(frames);
    }

    /// Remove a number of frames from this timecode in place.
    pub fn sub_assign<N: NormalizeFrameNumber>(&mut self, frames: N)
        ensures
            final (self).well_formed(),
            final (self).frame_number as int == (old(self).frame_number - frames.as_delta())
                % max_frame_count(T::spec_fps() as int, T::spec_drop_frame()),
            (
                final (self).hour as int,
                final (self).minute as int,
                final (self).second as int,
                final (self).frame as int,
            ) == fields_of(
                T::spec_fps() as int,
                T::spec_drop_frame(),
                final (self).frame_number as int,
            ),
    {
        let current = Timecode::<T> {
            frame_number: self.frame_number,
            hour: self.hour,
            minute: self.minute,
            second: self.second,
            frame: self.frame,
            frame_rate: core::marker::PhantomData,
        };
        *self = current.sub(frames);
    }

    /// Make a new timecode by adding two timecodes of the same rate: the
    /// result's frame number is the sum of the two frame numbers, wrapping
    /// at the end of the day. Timecodes of different rates cannot be added:
    /// the rate tags would differ.
    pub fn add_timecode(self, other: Timecode<T>) -> (r: Timecode<T>)
        ensures
            r.well_formed(),
            r.frame_number as int == (self.frame_number + other.frame_number) % max_frame_count(
                T::spec_fps() as int,
                T::spec_drop_frame(),
            ),
            (r.hour as int, r.minute as int, r.second as int, r.frame as int) == fields_of(
                T::spec_fps() as int,
                T::spec_drop_frame(),
                r.frame_number as int,
            ),
    {
        self.add(other.frame_number)
    }

    /// Add another timecode of the same rate to this one in place.
    pub fn add_assign_timecode(&mut self, other: Timecode<T>)
        ensures
            final (self).well_formed(),
            final (self).frame_number as int == (old(self).frame_number + other.frame_number)
                % max_frame_count(T::spec_fps() as int, T::spec_drop_frame()),
            (
                final (self).hour as int,
                final (self).minute as int,
                final (self).second as int,
                final (self).frame as int,
            ) == fields_of(
                T::spec_fps() as int,
                T::spec_drop_frame(),
                final (self).frame_number as int,
            ),
    {
        self.add_assign(other.frame_number);
    }
}

} // verus!
