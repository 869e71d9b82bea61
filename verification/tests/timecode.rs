//! Construction and arithmetic of timecodes.

use video_timecode::FrameRate24;
use video_timecode::FrameRate2997;
use video_timecode::FrameRate50;
use video_timecode::FrameRate5994;
use video_timecode::Timecode;
use video_timecode::TimecodeError;
use video_timecode::TimecodeErrorKind;

fn assert_tc<T: video_timecode::FrameRate>(
    tc: &Timecode<T>,
    hour: u8,
    minute: u8,
    second: u8,
    frame: u8,
    frame_number: u32,
) {
    assert_eq!(
        (tc.hour, tc.minute, tc.second, tc.frame, tc.frame_number),
        (hour, minute, second, frame, frame_number)
    );
}

#[test]
fn new_zero_timecode() {
    let tc = Timecode::<FrameRate2997>::new(0, 0, 0, 0).unwrap();
    assert_tc(&tc, 0, 0, 0, 0, 0);
}

#[test]
fn new_timecode_frames() {
    let tc = Timecode::<FrameRate2997>::new(0, 0, 0, 20).unwrap();
    assert_tc(&tc, 0, 0, 0, 20, 20);
}

#[test]
fn new_timecode_seconds() {
    let tc = Timecode::<FrameRate2997>::new(0, 0, 40, 10).unwrap();
    assert_tc(&tc, 0, 0, 40, 10, 1210);
}

#[test]
fn new_timecode_minutes() {
    let tc = Timecode::<FrameRate2997>::new(0, 23, 30, 15).unwrap();
    assert_tc(&tc, 0, 23, 30, 15, 42273);
}

#[test]
fn new_timecode_hours() {
    let tc = Timecode::<FrameRate2997>::new(5, 15, 25, 12).unwrap();
    assert_tc(&tc, 5, 15, 25, 12, 567194);
}

#[test]
fn dropped_timecode_2997() {
    match Timecode::<FrameRate2997>::new(23, 23, 00, 1) {
        Err(TimecodeError { kind: TimecodeErrorKind::InvalidTimecode }) => {}
        _ => panic!(),
    }
}

#[test]
fn dropped_timecode_5994() {
    match Timecode::<FrameRate5994>::new(10, 01, 00, 3) {
        Err(TimecodeError { kind: TimecodeErrorKind::InvalidTimecode }) => {}
        _ => panic!(),
    }
}

// Adding integers to timecodes.

#[test]
fn add_frames_1() {
    let tc = Timecode::<FrameRate24>::new(0, 0, 0, 0).unwrap().add(1usize);
    assert_tc(&tc, 0, 0, 0, 1, 1);
}

#[test]
fn add_frames_500() {
    let tc = Timecode::<FrameRate24>::new(0, 0, 0, 0).unwrap().add(500u32);
    assert_tc(&tc, 0, 0, 20, 20, 500);
}

#[test]
fn add_frames_1000_df() {
    let tc = Timecode::<FrameRate2997>::new(10, 0, 0, 0).unwrap().add(1000u32);
    assert_tc(&tc, 10, 0, 33, 10, 1079920);
}

#[test]
fn add_frames_1000000_df() {
    let tc = Timecode::<FrameRate2997>::new(10, 0, 0, 0).unwrap().add(1000000u32);
    assert_tc(&tc, 19, 16, 6, 22, 2078920);
}

#[test]
fn add_frames_negative_2997() {
    let tc = Timecode::<FrameRate2997>::new(0, 0, 10, 0).unwrap().add(-1000i32);
    assert_tc(&tc, 23, 59, 36, 20, 2588708);
}

#[test]
fn add_frames_negative_5994() {
    let tc = Timecode::<FrameRate5994>::new(0, 0, 10, 0).unwrap().add(-1000i32);
    assert_tc(&tc, 23, 59, 53, 20, 5178416);
}

// Adding to timecodes in place.

#[test]
fn add_assign_frames_1() {
    let mut tc = Timecode::<FrameRate24>::new(0, 0, 0, 0).unwrap();
    tc.add_assign(1usize);
    assert_tc(&tc, 0, 0, 0, 1, 1);
}

#[test]
fn add_assign_frames_500() {
    let mut tc = Timecode::<FrameRate24>::new(0, 0, 0, 0).unwrap();
    tc.add_assign(500u32);
    assert_tc(&tc, 0, 0, 20, 20, 500);
}

#[test]
fn add_assign_frames_1000_df() {
    let mut tc = Timecode::<FrameRate2997>::new(10, 0, 0, 0).unwrap();
    tc.add_assign(1000u32);
    assert_tc(&tc, 10, 0, 33, 10, 1079920);
}

#[test]
fn add_assign_frames_negative_2997() {
    let mut tc = Timecode::<FrameRate2997>::new(0, 0, 10, 0).unwrap();
    tc.add_assign(-1000i32);
    assert_tc(&tc, 23, 59, 36, 20, 2588708);
}

#[test]
fn add_assign_frames_negative_5994() {
    let mut tc = Timecode::<FrameRate5994>::new(0, 0, 10, 0).unwrap();
    tc.add_assign(-1000i32);
    assert_tc(&tc, 23, 59, 53, 20, 5178416);
}

// Adding timecodes to timecodes.

#[test]
fn add_timecode_1() {
    let tc = Timecode::<FrameRate50>::new(0, 0, 0, 0)
        .unwrap()
        .add_timecode(Timecode::<FrameRate50>::new(0, 0, 0, 1).unwrap());
    assert_eq!(tc, Timecode::<FrameRate50>::new(0, 0, 0, 1).unwrap());
}

#[test]
fn add_timecode_500() {
    let tc = Timecode::<FrameRate24>::new(0, 0, 0, 10)
        .unwrap()
        .add_timecode(Timecode::<FrameRate24>::new(0, 0, 20, 10).unwrap());
    assert_eq!(tc, Timecode::<FrameRate24>::new(0, 0, 20, 20).unwrap());
}

#[test]
fn add_timecode_1000_df() {
    let tc = Timecode::<FrameRate2997>::new(10, 0, 0, 0)
        .unwrap()
        .add_timecode(Timecode::<FrameRate2997>::new(0, 0, 33, 10).unwrap());
    assert_eq!(tc, Timecode::<FrameRate2997>::new(10, 0, 33, 10).unwrap());
}

#[test]
fn add_timecode_1000000_df() {
    let tc = Timecode::<FrameRate2997>::new(10, 0, 0, 0)
        .unwrap()
        .add_timecode(Timecode::<FrameRate2997>::new(9, 16, 6, 22).unwrap());
    assert_eq!(tc, Timecode::<FrameRate2997>::new(19, 16, 6, 22).unwrap());
}

#[test]
fn add_assign_timecode_500() {
    let mut tc = Timecode::<FrameRate24>::new(0, 0, 0, 10).unwrap();
    tc.add_assign_timecode(Timecode::<FrameRate24>::new(0, 0, 20, 10).unwrap());
    assert_eq!(tc, Timecode::<FrameRate24>::new(0, 0, 20, 20).unwrap());
}

// Subtracting integers from timecodes.

#[test]
fn subtract_frames_1() {
    let tc = Timecode::<FrameRate24>::new(0, 0, 0, 10).unwrap().sub(1usize);
    assert_eq!(
        (tc.hour, tc.minute, tc.second, tc.frame, tc.frame_number),
        (0, 0, 0, 9, 9)
    );
}

#[test]
fn sub_frames_500() {
    let tc = Timecode::<FrameRate24>::new(0, 0, 20, 20).unwrap().sub(500u32);
    assert_tc(&tc, 0, 0, 0, 0, 0);
}

#[test]
fn sub_assign_frames_500() {
    let mut tc = Timecode::<FrameRate24>::new(0, 0, 20, 20).unwrap();
    tc.sub_assign(500u32);
    assert_tc(&tc, 0, 0, 0, 0, 0);
}
