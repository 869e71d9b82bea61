//! Concrete checks of the library's stated laws: the two conversion round
//! trips, wraparound, the drop-frame gap, and the documented scenarios.

use video_timecode::convert;
use video_timecode::FrameRate;
use video_timecode::FrameRate2398;
use video_timecode::FrameRate24;
use video_timecode::FrameRate25;
use video_timecode::FrameRate2997;
use video_timecode::FrameRate30;
use video_timecode::FrameRate50;
use video_timecode::FrameRate5994;
use video_timecode::FrameRate60;
use video_timecode::Timecode;
use video_timecode::TimecodeError;
use video_timecode::TimecodeErrorKind;

fn check_fields_round_trip<T: FrameRate>(hour: u8, minute: u8, second: u8, frame: u8) {
    let tc = Timecode::<T>::new(hour, minute, second, frame).unwrap();
    let back = Timecode::<T>::from_frame_number(tc.frame_number);
    assert_eq!(
        (back.hour, back.minute, back.second, back.frame),
        (hour, minute, second, frame)
    );
    assert_eq!(back.frame_number, tc.frame_number);
}

// Fields -> frame number -> fields is the identity on every rate,
// including fields inside dropping minutes.
#[test]
fn fields_round_trip() {
    check_fields_round_trip::<FrameRate24>(23, 59, 59, 23);
    check_fields_round_trip::<FrameRate25>(11, 31, 17, 24);
    check_fields_round_trip::<FrameRate30>(5, 15, 25, 12);
    check_fields_round_trip::<FrameRate50>(0, 23, 30, 15);
    check_fields_round_trip::<FrameRate60>(23, 59, 59, 59);
    check_fields_round_trip::<FrameRate2398>(0, 23, 30, 15);
    check_fields_round_trip::<FrameRate2997>(10, 1, 0, 2);
    check_fields_round_trip::<FrameRate2997>(0, 11, 0, 29);
    check_fields_round_trip::<FrameRate5994>(10, 1, 0, 4);
    check_fields_round_trip::<FrameRate5994>(23, 59, 59, 59);
}

fn check_frame_number_round_trip<T: FrameRate>(n: u32) {
    let tc = Timecode::<T>::from_frame_number(n);
    assert_eq!(tc.frame_number, n);
    let again = Timecode::<T>::new(tc.hour, tc.minute, tc.second, tc.frame).unwrap();
    assert_eq!(again.frame_number, n);
}

// Frame number -> fields -> frame number is the identity on every rate,
// including the first frame of a dropping minute and the day's last frame.
#[test]
fn frame_number_round_trip() {
    check_frame_number_round_trip::<FrameRate24>(2073599);
    check_frame_number_round_trip::<FrameRate25>(1234567);
    check_frame_number_round_trip::<FrameRate30>(567762);
    check_frame_number_round_trip::<FrameRate50>(70515);
    check_frame_number_round_trip::<FrameRate60>(5183963);
    check_frame_number_round_trip::<FrameRate2997>(1800);
    check_frame_number_round_trip::<FrameRate2997>(2589407);
    check_frame_number_round_trip::<FrameRate5994>(3600);
    check_frame_number_round_trip::<FrameRate5994>(5178815);
}

// Every frame number of a whole day round-trips on the drop-frame rates.
#[test]
fn frame_number_round_trip_exhaustive_2997() {
    let max = 86400 * 30 - 144 * 18;
    let mut n: u32 = 0;
    while n < max {
        let tc = Timecode::<FrameRate2997>::from_frame_number(n);
        let again =
            Timecode::<FrameRate2997>::new(tc.hour, tc.minute, tc.second, tc.frame).unwrap();
        assert_eq!((tc.frame_number, again.frame_number), (n, n));
        n += 1;
    }
}

fn check_parse_format<T: FrameRate + std::fmt::Debug>(hour: u8, minute: u8, second: u8, frame: u8) {
    let tc = Timecode::<T>::new(hour, minute, second, frame).unwrap();
    let text = tc.to_string();
    assert_eq!(Timecode::<T>::from_str(&text).unwrap(), tc);
}

// parse(format(tc)) == tc for constructed timecodes of every rate.
#[test]
fn parse_format_inverse() {
    check_parse_format::<FrameRate24>(0, 0, 0, 0);
    check_parse_format::<FrameRate25>(23, 59, 59, 24);
    check_parse_format::<FrameRate30>(5, 15, 25, 12);
    check_parse_format::<FrameRate50>(10, 12, 6, 0);
    check_parse_format::<FrameRate60>(23, 59, 59, 59);
    check_parse_format::<FrameRate2398>(1, 2, 3, 4);
    check_parse_format::<FrameRate2997>(10, 1, 0, 2);
    check_parse_format::<FrameRate5994>(0, 11, 0, 4);
}

// from_frame_number(max_frame_count) == from_frame_number(0), and adding 1
// to the day's last frame number gives 00:00:00:00.
#[test]
fn wraparound() {
    let max_2997: u32 = 86400 * 30 - 144 * 18;
    assert_eq!(
        Timecode::<FrameRate2997>::from_frame_number(max_2997),
        Timecode::<FrameRate2997>::from_frame_number(0u32)
    );
    let last = Timecode::<FrameRate2997>::from_frame_number(max_2997 - 1);
    let wrapped = last.add(1i64);
    assert_eq!(wrapped, Timecode::<FrameRate2997>::new(0, 0, 0, 0).unwrap());

    let max_24: u32 = 86400 * 24;
    assert_eq!(
        Timecode::<FrameRate24>::from_frame_number(max_24),
        Timecode::<FrameRate24>::from_frame_number(0u32)
    );
    let wrapped = Timecode::<FrameRate24>::from_frame_number(max_24 - 1).add(1i64);
    assert_eq!(wrapped, Timecode::<FrameRate24>::new(0, 0, 0, 0).unwrap());
}

// Dropped-gap rejection: minute 1, second 0, frame 0 is no legal 29.97
// timecode, while the same frame value at minute 0 is.
#[test]
fn drop_frame_gap() {
    match Timecode::<FrameRate2997>::new(0, 1, 0, 0) {
        Err(TimecodeError { kind: TimecodeErrorKind::InvalidTimecode }) => {}
        _ => panic!(),
    }
    match Timecode::<FrameRate2997>::new(0, 1, 0, 1) {
        Err(TimecodeError { kind: TimecodeErrorKind::InvalidTimecode }) => {}
        _ => panic!(),
    }
    let tc = Timecode::<FrameRate2997>::new(0, 0, 0, 0).unwrap();
    assert_eq!(tc.frame_number, 0);
    let tc = Timecode::<FrameRate2997>::new(0, 1, 0, 2).unwrap();
    assert_eq!(tc.frame_number, 1800);
    let tc = Timecode::<FrameRate5994>::new(0, 1, 0, 4).unwrap();
    assert_eq!(tc.frame_number, 3600);
}

// The documented concrete conversions.
#[test]
fn concrete_frame_numbers() {
    assert_eq!(Timecode::<FrameRate24>::new(0, 23, 30, 15).unwrap().frame_number, 33855);
    assert_eq!(Timecode::<FrameRate30>::new(5, 15, 25, 12).unwrap().frame_number, 567762);
    assert_eq!(Timecode::<FrameRate2997>::new(0, 0, 0, 0).unwrap().frame_number, 0);
    assert_eq!(Timecode::<FrameRate2997>::new(5, 15, 25, 12).unwrap().frame_number, 567194);
    assert_eq!(Timecode::<FrameRate5994>::new(0, 23, 30, 15).unwrap().frame_number, 84531);
}

// The documented arithmetic scenario on 29.97: adding 1000 frames to
// 10:00:00:00 and subtracting 1000 frames from 00:00:10:00.
#[test]
fn arithmetic_scenarios() {
    let tc = Timecode::<FrameRate2997>::new(10, 0, 0, 0).unwrap();
    assert_eq!(tc.frame_number, 1079920 - 1000);
    let sum = tc.add(1000i64);
    assert_eq!(
        (sum.hour, sum.minute, sum.second, sum.frame, sum.frame_number),
        (10, 0, 33, 10, 1079920)
    );

    let tc = Timecode::<FrameRate2997>::new(0, 0, 10, 0).unwrap();
    let diff = tc.sub(1000i64);
    assert_eq!(
        (diff.hour, diff.minute, diff.second, diff.frame, diff.frame_number),
        (23, 59, 36, 20, 2588708)
    );
}

// The checked inverse conversion reports a range error exactly at the
// rate's maximum frame count.
#[test]
fn frame_number_out_of_range() {
    let max = 86400 * 30 - 144 * 18;
    match convert::frame_number_to_timecode(30, true, max) {
        Err(TimecodeError { kind: TimecodeErrorKind::FrameNumberOutOfRange }) => {}
        _ => panic!(),
    }
    let fields = convert::frame_number_to_timecode(30, true, max - 1).unwrap();
    assert_eq!(fields, (23, 59, 59, 29));
}

// Normalization of wide and negative frame numbers.
#[test]
fn normalize_wide_values() {
    let max_24: u64 = 86400 * 24;
    let tc = Timecode::<FrameRate24>::from_frame_number(10 * max_24 + 970);
    assert_eq!(tc.frame_number, 970);
    let tc = Timecode::<FrameRate24>::from_frame_number(-1i64);
    assert_eq!(tc.frame_number, (max_24 - 1) as u32);
    let tc = Timecode::<FrameRate24>::from_frame_number(-(3 * max_24 as i64));
    assert_eq!(tc.frame_number, 0);
    let tc = Timecode::<FrameRate24>::from_frame_number(usize::MAX);
    assert_eq!(tc.frame_number as u64, u64::MAX % max_24);
    let tc = Timecode::<FrameRate24>::from_frame_number(i64::MIN);
    assert_eq!(tc.frame_number as u64, (max_24 - (1u64 << 63) % max_24) % max_24);
}
