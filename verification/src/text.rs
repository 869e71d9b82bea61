//! Parsing and formatting of the canonical SMPTE text notation
//! `HH:MM:SS:FF`, with `;` or `.` before the frame field signalling
//! drop-frame.

use vstd::prelude::*;

use crate::convert::fields_valid;
use crate::convert::frame_number_of;
use crate::FrameRate;
use crate::Timecode;
use crate::TimecodeError;
use crate::TimecodeErrorKind;

verus! {

/// An ASCII decimal digit.
pub open spec fn is_digit(c: char) -> bool {
    '0' <= c && c <= '9'
}

/// The value of an ASCII decimal digit.
pub open spec fn digit_val(c: char) -> int {
    c as int - '0' as int
}

/// The ASCII decimal digit with the given value.
pub open spec fn digit_char(d: int) -> char {
    (d + '0' as int) as char
}

/// The value of the two-digit field at position `i`.
pub open spec fn text_field(s: Seq<char>, i: int) -> int {
    10 * digit_val(s[i]) + digit_val(s[i + 1])
}

/// A field separator of one of the three notations.
pub open spec fn is_separator(c: char) -> bool {
    c == ':' || c == ';' || c == '.'
}

/// The shape of an accepted timecode text: four two-digit fields, the
/// first three below 60; one separator notation established between hour
/// and minute and repeated between minute and second; and before the frame
/// field either the same separator again, or `;`/`.` under an otherwise
/// colon notation.
pub open spec fn well_formed_text(s: Seq<char>) -> bool {
    &&& s.len() == 11
    &&& is_digit(s[0]) && is_digit(s[1]) && is_digit(s[3]) && is_digit(s[4]) && is_digit(s[6])
        && is_digit(s[7]) && is_digit(s[9]) && is_digit(s[10])
    &&& text_field(s, 0) < 60
    &&& text_field(s, 3) < 60
    &&& text_field(s, 6) < 60
    &&& is_separator(s[2])
    &&& s[5] == s[2]
    &&& (s[8] == s[2] || (s[2] == ':' && (s[8] == ';' || s[8] == '.')))
}

/// Whether a well-formed text signals drop-frame counting.
pub open spec fn text_drop_frame(s: Seq<char>) -> bool {
    s[8] == ';' || s[8] == '.'
}

/// The canonical text of a timecode: colon separators, except `;` before
/// the frame field on a drop-frame rate.
pub open spec fn format_text(
    drop_frame: bool,
    hour: int,
    minute: int,
    second: int,
    frame: int,
) -> Seq<char> {
    seq![
        digit_char(hour / 10),
        digit_char(hour % 10),
        ':',
        digit_char(minute / 10),
        digit_char(minute % 10),
        ':',
        digit_char(second / 10),
        digit_char(second % 10),
        if drop_frame {
            ';'
        } else {
            ':'
        },
        digit_char(frame / 10),
        digit_char(frame % 10),
    ]
}

/// The value of an ASCII decimal digit character, or `None` for any other
/// character.
fn digit_value(c: char) -> (r: Option<u8>)
    ensures
        match r {
            Some(d) => is_digit(c) && d as int == digit_val(c) && d < 10,
            None => !is_digit(c),
        },
{
    let v = c as u32;
    if 48 <= v && v <= 57 {
        Some((v - 48) as u8)
    } else {
        None
    }
}

/// The two-digit field at position `i` of the text, or `None` when either
/// character is not a digit.
fn two_digit_field(text: &str, i: usize) -> (r: Option<u8>)
    requires
        i <= 9,
        i + 2 <= text@.len(),
    ensures
        match r {
            Some(v) => is_digit(text@[i as int]) && is_digit(text@[i + 1]) && v as int
                == text_field(text@, i as int) && v < 100,
            None => !(is_digit(text@[i as int]) && is_digit(text@[i + 1])),
        },
{
    let high = digit_value(text.get_char(i));
    let low = digit_value(text.get_char(i + 1));
    match (high, low) {
        (Some(a), Some(b)) => Some(10 * a + b),
        _ => None,
    }
}

/// The one-character string holding the given decimal digit.
fn digit_str(d: u8) -> (r: &'static str)
    requires
        d < 10,
    ensures
        r@.len() == 1,
        r@[0] == digit_char(d as int),
{
    proof {
        reveal_strlit("0");
        reveal_strlit("1");
        reveal_strlit("2");
        reveal_strlit("3");
        reveal_strlit("4");
        reveal_strlit("5");
        reveal_strlit("6");
        reveal_strlit("7");
        reveal_strlit("8");
        reveal_strlit("9");
    }
    match d {
        0 => "0",
        1 => "1",
        2 => "2",
        3 => "3",
        4 => "4",
        5 => "5",
        6 => "6",
        7 => "7",
        8 => "8",
        _ => "9",
    }
}

impl<T: FrameRate> Timecode<T> {
    /// Parse a string into a timecode.
    ///
    /// Colon separators are accepted for all rates; for drop-frame rates
    /// `;` or `.` may stand throughout, or before the frame field alone.
    /// A malformed text gives `InvalidFormat`; a drop-frame notation on a
    /// non-drop rate gives `InvalidDropFrameFormat`; well-formed fields
    /// that are no legal point on the rate's timeline give
    /// `InvalidTimecode`.
    pub fn from_str(text: &str) -> (r: Result<Timecode<T>, TimecodeError>)
        ensures
            match r {
                Ok(tc) => {
                    &&& well_formed_text(text@)
                    &&& (text_drop_frame(text@) ==> T::spec_drop_frame())
                    &&& fields_valid(
                        T::spec_fps() as int,
                        T::spec_drop_frame(),
                        text_field(text@, 0),
                        text_field(text@, 3),
                        text_field(text@, 6),
                        text_field(text@, 9),
                    )
                    &&& tc.hour as int == text_field(text@, 0)
                    &&& tc.minute as int == text_field(text@, 3)
                    &&& tc.second as int == text_field(text@, 6)
                    &&& tc.frame as int == text_field(text@, 9)
                    &&& tc.well_formed()
                },
                Err(e) => match e.kind {
                    TimecodeErrorKind::InvalidFormat => !well_formed_text(text@),
                    TimecodeErrorKind::InvalidDropFrameFormat => well_formed_text(text@)
                        && text_drop_frame(text@) && !T::spec_drop_frame(),
                    TimecodeErrorKind::InvalidTimecode => well_formed_text(text@)
                        && (text_drop_frame(text@) ==> T::spec_drop_frame()) && !fields_valid(
                        T::spec_fps() as int,
                        T::spec_drop_frame(),
                        text_field(text@, 0),
                        text_field(text@, 3),
                        text_field(text@, 6),
                        text_field(text@, 9),
                    ),
                    TimecodeErrorKind::FrameNumberOutOfRange => false,
                },
            },
    {
        if text.unicode_len() != 11 {
            return Err(TimecodeError { kind: TimecodeErrorKind::InvalidFormat });
        }
        let hour = match two_digit_field(text, 0) {
            Some(v) => v,
            None => {
                return Err(TimecodeError { kind: TimecodeErrorKind::InvalidFormat });
            },
        };
        if hour >= 60 {
            return Err(TimecodeError { kind: TimecodeErrorKind::InvalidFormat });
        }
        let sep1 = text.get_char(2);
        let colon_notation = sep1 == ':';
        let semi_colon_notation = sep1 == ';';
        let dot_notation = sep1 == '.';
        if !(colon_notation || semi_colon_notation || dot_notation) {
            return Err(TimecodeError { kind: TimecodeErrorKind::InvalidFormat });
        }
        let minute = match two_digit_field(text, 3) {
            Some(v) => v,
            None => {
                return Err(TimecodeError { kind: TimecodeErrorKind::InvalidFormat });
            },
        };
        if minute >= 60 {
            return Err(TimecodeError { kind: TimecodeErrorKind::InvalidFormat });
        }
        let sep2 = text.get_char(5);
        if sep2 != sep1 {
            return Err(TimecodeError { kind: TimecodeErrorKind::InvalidFormat });
        }
        let second = match two_digit_field(text, 6) {
            Some(v) => v,
            None => {
                return Err(TimecodeError { kind: TimecodeErrorKind::InvalidFormat });
            },
        };
        if second >= 60 {
            return Err(TimecodeError { kind: TimecodeErrorKind::InvalidFormat });
        }
        let sep3 = text.get_char(8);
        let drop_notation: bool;
        if sep3 == ':' && colon_notation {
            drop_notation = false;
        } else if sep3 == ';' && (semi_colon_notation || colon_notation) {
            drop_notation = true;
        } else if sep3 == '.' && (dot_notation || colon_notation) {
            drop_notation = true;
        } else {
            return Err(TimecodeError { kind: TimecodeErrorKind::InvalidFormat });
        }
        let frame = match two_digit_field(text, 9) {
            Some(v) => v,
            None => {
                return Err(TimecodeError { kind: TimecodeErrorKind::InvalidFormat });
            },
        };
        if drop_notation && !T::drop_frame() {
            return Err(TimecodeError { kind: TimecodeErrorKind::InvalidDropFrameFormat });
        }
        match Self::new(hour, minute, second, frame) {
            Ok(tc) => Ok(tc),
            Err(_) => Err(TimecodeError { kind: TimecodeErrorKind::InvalidTimecode }),
        }
    }

    /// Format the timecode in the canonical notation: colon separators,
    /// except `;` before the frame field on a drop-frame rate.
    pub fn to_string(&self) -> (r: String)
        requires
            self.well_formed(),
        ensures
            r@ == format_text(
                T::spec_drop_frame(),
                self.hour as int,
                self.minute as int,
                self.second as int,
                self.frame as int,
            ),
    {
        proof {
            T::rate_valid();
            reveal_strlit(":");
            reveal_strlit(";");
        }
        let mut out = String::new();
        out.append(digit_str(self.hour / 10));
        out.append(digit_str(self.hour % 10));
        out.append(":");
        out.append(digit_str(self.minute / 10));
        out.append(digit_str(self.minute % 10));
        out.append(":");
        out.append(digit_str(self.second / 10));
        out.append(digit_str(self.second % 10));
        if T::drop_frame() {
            out.append(";");
        } else {
            out.append(":");
        }
        out.append(digit_str(self.frame / 10));
        out.append(digit_str(self.frame % 10));
        proof {
            assert(out@ =~= format_text(
                T::spec_drop_frame(),
                self.hour as int,
                self.minute as int,
                self.second as int,
                self.frame as int,
            ));
        }
        out
    }
}


/// Formatting two-digit fields and reading them back is the identity:
/// the canonical text of in-range fields is well formed, signals
/// drop-frame exactly for a drop-frame rate, and its four fields read
/// back as the values that were formatted.
pub proof fn lemma_format_text_fields(
    drop_frame: bool,
    hour: int,
    minute: int,
    second: int,
    frame: int,
)
    requires
        0 <= hour < 100,
        0 <= minute < 60,
        0 <= second < 60,
        0 <= frame < 100,
        hour < 60,
    ensures
        ({
            let t = format_text(drop_frame, hour, minute, second, frame);
            &&& well_formed_text(t)
            &&& text_drop_frame(t) == drop_frame
            &&& text_field(t, 0) == hour
            &&& text_field(t, 3) == minute
            &&& text_field(t, 6) == second
            &&& text_field(t, 9) == frame
        }),
{
    let t = format_text(drop_frame, hour, minute, second, frame);
    assert(is_digit(digit_char(hour / 10)) && digit_val(digit_char(hour / 10)) == hour / 10);
    assert(is_digit(digit_char(hour % 10)) && digit_val(digit_char(hour % 10)) == hour % 10);
    assert(is_digit(digit_char(minute / 10)) && digit_val(digit_char(minute / 10)) == minute / 10);
    assert(is_digit(digit_char(minute % 10)) && digit_val(digit_char(minute % 10)) == minute % 10);
    assert(is_digit(digit_char(second / 10)) && digit_val(digit_char(second / 10)) == second / 10);
    assert(is_digit(digit_char(second % 10)) && digit_val(digit_char(second % 10)) == second % 10);
    assert(is_digit(digit_char(frame / 10)) && digit_val(digit_char(frame / 10)) == frame / 10);
    assert(is_digit(digit_char(frame % 10)) && digit_val(digit_char(frame % 10)) == frame % 10);
    assert(text_field(t, 0) == hour);
    assert(text_field(t, 3) == minute);
    assert(text_field(t, 6) == second);
    assert(text_field(t, 9) == frame);
}

/// Parse/format inverse: the canonical text of any well-formed timecode is
/// well formed for its own rate and parses back to the same four fields,
/// and so, the fields being a legal point of the rate's timeline, to the
/// same timecode value.
pub proof fn lemma_parse_format_inverse<T: FrameRate>(tc: Timecode<T>)
    requires
        tc.well_formed(),
    ensures
        ({
            let t = format_text(
                T::spec_drop_frame(),
                tc.hour as int,
                tc.minute as int,
                tc.second as int,
                tc.frame as int,
            );
            &&& well_formed_text(t)
            &&& text_drop_frame(t) == T::spec_drop_frame()
            &&& fields_valid(
                T::spec_fps() as int,
                T::spec_drop_frame(),
                text_field(t, 0),
                text_field(t, 3),
                text_field(t, 6),
                text_field(t, 9),
            )
            &&& text_field(t, 0) == tc.hour as int
            &&& text_field(t, 3) == tc.minute as int
            &&& text_field(t, 6) == tc.second as int
            &&& text_field(t, 9) == tc.frame as int
            &&& tc.frame_number as int == frame_number_of(
                T::spec_fps() as int,
                T::spec_drop_frame(),
                text_field(t, 0),
                text_field(t, 3),
                text_field(t, 6),
                text_field(t, 9),
            )
        }),
{
    T::rate_valid();
    lemma_format_text_fields(
        T::spec_drop_frame(),
        tc.hour as int,
        tc.minute as int,
        tc.second as int,
        tc.frame as int,
    );
}

} // verus!
