//! The bidirectional conversion between an absolute frame number and
//! timecode fields, parametrized by a rate's nominal fps and drop-frame
//! flag, together with the round-trip lemmas.

use vstd::prelude::*;

use vstd::arithmetic::div_mod::lemma_fundamental_div_mod;
use vstd::arithmetic::div_mod::lemma_fundamental_div_mod_converse;
use vstd::arithmetic::div_mod::lemma_mod_pos_bound;
use vstd::arithmetic::div_mod::lemma_mod_self_0;
use vstd::arithmetic::div_mod::lemma_small_mod;

verus! {

/// The rates this library supports: the five non-drop nominal rates, of
/// which only the multiples of 30 may carry drop-frame counting.
pub open spec fn valid_rate(fps: int, drop_frame: bool) -> bool {
    &&& (fps == 24 || fps == 25 || fps == 30 || fps == 50 || fps == 60)
    &&& (drop_frame ==> fps == 30 || fps == 60)
}

/// How many frame values are skipped at the start of a dropping minute:
/// 2 for the 29.97 class, 4 for the 59.94 class.
pub open spec fn dropped_per_minute(fps: int) -> int {
    fps / 15
}

/// Total count of valid frame numbers in a 24-hour day.
pub open spec fn max_frame_count(fps: int, drop_frame: bool) -> int {
    if drop_frame {
        86400 * fps - 144 * (18 * (fps / 30))
    } else {
        86400 * fps
    }
}

/// Whether `hour:minute:second:frame` is a legal point on the timeline of
/// the given rate. For a drop-frame rate, the first `dropped_per_minute`
/// frame values of each minute that is not a multiple of ten never occur.
pub open spec fn fields_valid(
    fps: int,
    drop_frame: bool,
    hour: int,
    minute: int,
    second: int,
    frame: int,
) -> bool {
    &&& 0 <= hour < 24
    &&& 0 <= minute < 60
    &&& 0 <= second < 60
    &&& 0 <= frame < fps
    &&& !(drop_frame && second == 0 && minute % 10 != 0 && frame < dropped_per_minute(fps))
}

/// The frame count as if no frame value were ever skipped.
pub open spec fn naive_frame_number(fps: int, hour: int, minute: int, second: int, frame: int) -> int {
    3600 * fps * hour + 60 * fps * minute + fps * second + frame
}

/// How many frame values are skipped strictly before `hour:minute:_:_` on a
/// drop-frame timeline: `dropped_per_minute` for every elapsed minute that
/// is not a multiple of ten, the current minute included.
pub open spec fn dropped_frames(fps: int, hour: int, minute: int) -> int {
    dropped_per_minute(fps) * (9 * (6 * hour + minute / 10) + minute % 10)
}

/// The absolute frame number of `hour:minute:second:frame`.
pub open spec fn frame_number_of(
    fps: int,
    drop_frame: bool,
    hour: int,
    minute: int,
    second: int,
    frame: int,
) -> int {
    if drop_frame {
        naive_frame_number(fps, hour, minute, second, frame) - dropped_frames(fps, hour, minute)
    } else {
        naive_frame_number(fps, hour, minute, second, frame)
    }
}

/// The `(hour, minute, second, frame)` decomposition of an absolute frame
/// number `n` in `[0, max_frame_count)`.
pub open spec fn fields_of(fps: int, drop_frame: bool, n: int) -> (int, int, int, int) {
    if drop_frame {
        let dpm = dropped_per_minute(fps);
        let fpm = 60 * fps;
        let fpdm = fpm - dpm;
        let fpt = fpm + 9 * fpdm;
        let fph = 6 * fpt;
        let hour = n / fph;
        let in_hour = n % fph;
        let tens = in_hour / fpt;
        let in_ten = in_hour % fpt;
        if in_ten < fpm {
            (hour, 10 * tens, in_ten / fps, in_ten % fps)
        } else {
            let past = in_ten - fpm;
            let realigned = past % fpdm + dpm;
            (hour, 10 * tens + 1 + past / fpdm, realigned / fps, realigned % fps)
        }
    } else {
        let total_seconds = n / fps;
        let total_minutes = total_seconds / 60;
        (total_minutes / 60, total_minutes % 60, total_seconds % 60, n % fps)
    }
}

/// Concrete consequences of `valid_rate` that the proofs below lean on.
pub proof fn lemma_rate_constants(fps: int, drop_frame: bool)
    requires
        valid_rate(fps, drop_frame),
    ensures
        24 <= fps <= 60,
        drop_frame ==> (fps == 30 && dropped_per_minute(fps) == 2) || (fps == 60
            && dropped_per_minute(fps) == 4),
        drop_frame ==> max_frame_count(fps, drop_frame) == 24 * (6 * (60 * fps + 9 * (60 * fps
            - dropped_per_minute(fps)))),
        !drop_frame ==> max_frame_count(fps, drop_frame) == 86400 * fps,
        0 < max_frame_count(fps, drop_frame) <= 5184000,
{
}

/// The drop-frame forward formula regrouped by hour, ten-minute block, and
/// minute within the block: a pure ring identity.
proof fn lemma_drop_algebra(
    fps: int,
    dpm: int,
    fpm: int,
    fpdm: int,
    fpt: int,
    fph: int,
    hour: int,
    tens: int,
    rem: int,
    minute: int,
    second: int,
    frame: int,
) by (nonlinear_arith)
    requires
        fpm == 60 * fps,
        fpdm == fpm - dpm,
        fpt == fpm + 9 * fpdm,
        fph == 6 * fpt,
        minute == 10 * tens + rem,
    ensures
        3600 * fps * hour + 60 * fps * minute + fps * second + frame - dpm * (9 * (6 * hour + tens)
            + rem) == fph * hour + fpt * tens + (fpdm * rem + fps * second + frame),
{
}

/// Forward conversion of valid fields on a drop-frame rate: the frame
/// number lands in range and decomposes back to the same fields.
proof fn lemma_drop_to_frame(fps: int, hour: int, minute: int, second: int, frame: int)
    requires
        fps == 30 || fps == 60,
        fields_valid(fps, true, hour, minute, second, frame),
    ensures
        0 <= frame_number_of(fps, true, hour, minute, second, frame) < max_frame_count(fps, true),
        fields_of(fps, true, frame_number_of(fps, true, hour, minute, second, frame)) == (
            hour,
            minute,
            second,
            frame,
        ),
{
    lemma_rate_constants(fps, true);
    let dpm = dropped_per_minute(fps);
    let fpm = 60 * fps;
    let fpdm = fpm - dpm;
    let fpt = fpm + 9 * fpdm;
    let fph = 6 * fpt;
    let tens = minute / 10;
    let rem = minute % 10;
    let in_ten = fpdm * rem + fps * second + frame;
    let n = frame_number_of(fps, true, hour, minute, second, frame);

    assert(minute == 10 * tens + rem && 0 <= rem <= 9 && 0 <= tens <= 5);
    lemma_drop_algebra(
        fps,
        dpm,
        fpm,
        fpdm,
        fpt,
        fph,
        hour,
        tens,
        rem,
        minute,
        second,
        frame,
    );
    assert(n == fph * hour + fpt * tens + in_ten);

    assert(0 <= fps * second <= fps * 59) by (nonlinear_arith)
        requires
            0 <= second <= 59,
            0 < fps,
    ;
    assert(0 <= fpdm * rem <= fpdm * 9) by (nonlinear_arith)
        requires
            0 <= rem <= 9,
            0 < fpdm,
    ;
    assert(in_ten < fpt);

    if rem == 0 {
        assert(in_ten == fps * second + frame);
        assert(in_ten < fpm);
    } else {
        // In a dropping minute the first `dpm` frame values of second 0
        // never occur, so the offset into the block reaches past the full
        // first minute.
        assert(fpdm * 1 <= fpdm * rem) by (nonlinear_arith)
            requires
                1 <= rem,
                0 < fpdm,
        ;
        if second == 0 {
            assert(minute % 10 != 0);
            assert(frame >= dpm);
            assert(fps * 0 <= fps * second) by (nonlinear_arith)
                requires
                    0 <= second,
                    0 < fps,
            ;
            assert(in_ten >= fpdm + dpm == fpm);
        } else {
            assert(fps * 1 <= fps * second) by (nonlinear_arith)
                requires
                    1 <= second,
                    0 < fps,
            ;
            assert(in_ten >= fpdm + fps > fpm);
        }
    }

    assert(0 <= fpt * tens + in_ten < fph) by (nonlinear_arith)
        requires
            0 <= tens <= 5,
            0 <= in_ten < fpt,
            fph == 6 * fpt,
    ;
    assert(n == fph * hour + (fpt * tens + in_ten));
    assert(fph * hour == hour * fph && fpt * tens == tens * fpt) by (nonlinear_arith);
    lemma_fundamental_div_mod_converse(n, fph, hour, fpt * tens + in_ten);
    assert(n / fph == hour && n % fph == fpt * tens + in_ten);
    lemma_fundamental_div_mod_converse(fpt * tens + in_ten, fpt, tens, in_ten);

    assert(0 <= fph * hour <= fph * 23) by (nonlinear_arith)
        requires
            0 <= hour <= 23,
            0 < fph,
    ;
    assert(n < 24 * fph);
    assert(max_frame_count(fps, true) == 24 * fph);

    if rem == 0 {
        assert(fps * second == second * fps) by (nonlinear_arith);
        lemma_fundamental_div_mod_converse(in_ten, fps, second, frame);
        assert(fields_of(fps, true, n) == (hour, 10 * tens, second, frame));
        assert(10 * tens == minute);
    } else {
        let w = fps * second + frame - dpm;
        assert(fps * second + frame <= fps * 59 + fps - 1);
        assert(w < fpdm);
        if second == 0 {
            assert(fps * second == fps * 0) by (nonlinear_arith)
                requires
                    second == 0,
            ;
            assert(w == frame - dpm >= 0);
        } else {
            assert(fps * 1 <= fps * second) by (nonlinear_arith)
                requires
                    1 <= second,
                    0 < fps,
            ;
            assert(w >= 0);
        }
        assert(in_ten - fpm == fpdm * (rem - 1) + w) by (nonlinear_arith)
            requires
                in_ten == fpdm * rem + fps * second + frame,
                w == fps * second + frame - dpm,
                fpm == fpdm + dpm,
        ;
        assert(fpdm * (rem - 1) == (rem - 1) * fpdm && fps * second == second * fps)
            by (nonlinear_arith);
        lemma_fundamental_div_mod_converse(in_ten - fpm, fpdm, rem - 1, w);
        lemma_fundamental_div_mod_converse(fps * second + frame, fps, second, frame);
        assert(fields_of(fps, true, n) == (
            hour,
            10 * tens + 1 + (rem - 1),
            second,
            frame,
        ));
    }
}

/// Forward conversion of valid fields on a non-drop rate.
proof fn lemma_nondrop_to_frame(fps: int, hour: int, minute: int, second: int, frame: int)
    requires
        24 <= fps,
        fields_valid(fps, false, hour, minute, second, frame),
    ensures
        0 <= frame_number_of(fps, false, hour, minute, second, frame) < max_frame_count(fps, false),
        fields_of(fps, false, frame_number_of(fps, false, hour, minute, second, frame)) == (
            hour,
            minute,
            second,
            frame,
        ),
{
    let n = frame_number_of(fps, false, hour, minute, second, frame);
    let total_seconds = 3600 * hour + 60 * minute + second;
    assert(n == total_seconds * fps + frame) by (nonlinear_arith)
        requires
            n == 3600 * fps * hour + 60 * fps * minute + fps * second + frame,
            total_seconds == 3600 * hour + 60 * minute + second,
    ;
    assert(0 <= total_seconds < 86400);
    assert(0 <= total_seconds * fps && total_seconds * fps <= 86399 * fps) by (nonlinear_arith)
        requires
            0 <= total_seconds <= 86399,
            0 < fps,
    ;
    lemma_fundamental_div_mod_converse(n, fps, total_seconds, frame);
    assert(n / fps == total_seconds && n % fps == frame);
    let total_minutes = 60 * hour + minute;
    lemma_fundamental_div_mod_converse(total_seconds, 60, total_minutes, second);
    lemma_fundamental_div_mod_converse(total_minutes, 60, hour, minute);
    assert(fields_of(fps, false, n) == (hour, minute, second, frame));
    assert(n < 86400 * fps);
}

/// Inverse conversion of an in-range frame number on a drop-frame rate:
/// the fields are valid and map forward to the same frame number.
proof fn lemma_drop_from_frame(fps: int, n: int)
    requires
        fps == 30 || fps == 60,
        0 <= n < max_frame_count(fps, true),
    ensures
        ({
            let (hour, minute, second, frame) = fields_of(fps, true, n);
            &&& fields_valid(fps, true, hour, minute, second, frame)
            &&& frame_number_of(fps, true, hour, minute, second, frame) == n
        }),
{
    lemma_rate_constants(fps, true);
    let dpm = dropped_per_minute(fps);
    let fpm = 60 * fps;
    let fpdm = fpm - dpm;
    let fpt = fpm + 9 * fpdm;
    let fph = 6 * fpt;
    let hour = n / fph;
    let in_hour = n % fph;
    let tens = in_hour / fpt;
    let in_ten = in_hour % fpt;

    lemma_fundamental_div_mod(n, fph);
    lemma_mod_pos_bound(n, fph);
    assert(0 <= hour < 24) by (nonlinear_arith)
        requires
            n == fph * hour + in_hour,
            0 <= in_hour < fph,
            0 <= n < 24 * fph,
            0 < fph,
    ;
    lemma_fundamental_div_mod(in_hour, fpt);
    lemma_mod_pos_bound(in_hour, fpt);
    assert(0 <= tens < 6) by (nonlinear_arith)
        requires
            in_hour == fpt * tens + in_ten,
            0 <= in_ten < fpt,
            0 <= in_hour < 6 * fpt,
            0 < fpt,
    ;

    if in_ten < fpm {
        let second = in_ten / fps;
        let frame = in_ten % fps;
        lemma_fundamental_div_mod(in_ten, fps);
        lemma_mod_pos_bound(in_ten, fps);
        assert(0 <= second < 60) by (nonlinear_arith)
            requires
                in_ten == fps * second + frame,
                0 <= frame < fps,
                0 <= in_ten < 60 * fps,
                0 < fps,
        ;
        let minute = 10 * tens;
        assert(fields_valid(fps, true, hour, minute, second, frame));
        assert(minute / 10 == tens && minute % 10 == 0);
        lemma_drop_algebra(fps, dpm, fpm, fpdm, fpt, fph, hour, tens, 0, minute, second, frame);
        assert(frame_number_of(fps, true, hour, minute, second, frame) == fph * hour + fpt * tens
            + (fps * second + frame));
        assert(frame_number_of(fps, true, hour, minute, second, frame) == n);
    } else {
        let past = in_ten - fpm;
        let extra = past / fpdm;
        let rest = past % fpdm;
        lemma_fundamental_div_mod(past, fpdm);
        lemma_mod_pos_bound(past, fpdm);
        assert(0 <= extra < 9) by (nonlinear_arith)
            requires
                past == fpdm * extra + rest,
                0 <= rest < fpdm,
                0 <= past < 9 * fpdm,
                0 < fpdm,
        ;
        let realigned = rest + dpm;
        assert(dpm <= realigned < fpm);
        let second = realigned / fps;
        let frame = realigned % fps;
        lemma_fundamental_div_mod(realigned, fps);
        lemma_mod_pos_bound(realigned, fps);
        assert(0 <= second < 60) by (nonlinear_arith)
            requires
                realigned == fps * second + frame,
                0 <= frame < fps,
                0 <= realigned < 60 * fps,
                0 < fps,
        ;
        let minute = 10 * tens + 1 + extra;
        assert(minute / 10 == tens && minute % 10 == 1 + extra);
        if second == 0 {
            // The realigned offset is below one second, so the frame value
            // itself carries the drop offset.
            assert(fps * second == fps * 0) by (nonlinear_arith)
                requires
                    second == 0,
            ;
            assert(frame == realigned >= dpm);
        }
        assert(fields_valid(fps, true, hour, minute, second, frame));
        lemma_drop_algebra(
            fps,
            dpm,
            fpm,
            fpdm,
            fpt,
            fph,
            hour,
            tens,
            1 + extra,
            minute,
            second,
            frame,
        );
        assert(fpdm * (1 + extra) == fpdm + fpdm * extra) by (nonlinear_arith);
        assert(fpdm * (1 + extra) + (fps * second + frame) == fpdm + fpdm * extra + rest + dpm);
        assert(fpdm * extra + rest == past);
        assert(fpdm * (1 + extra) + (fps * second + frame) == fpm + past == in_ten);
        assert(frame_number_of(fps, true, hour, minute, second, frame) == fph * hour + fpt * tens
            + in_ten);
        assert(frame_number_of(fps, true, hour, minute, second, frame) == n);
    }
}

/// Inverse conversion of an in-range frame number on a non-drop rate.
proof fn lemma_nondrop_from_frame(fps: int, n: int)
    requires
        24 <= fps,
        0 <= n < max_frame_count(fps, false),
    ensures
        ({
            let (hour, minute, second, frame) = fields_of(fps, false, n);
            &&& fields_valid(fps, false, hour, minute, second, frame)
            &&& frame_number_of(fps, false, hour, minute, second, frame) == n
        }),
{
    let total_seconds = n / fps;
    let frame = n % fps;
    lemma_fundamental_div_mod(n, fps);
    lemma_mod_pos_bound(n, fps);
    assert(0 <= total_seconds < 86400) by (nonlinear_arith)
        requires
            n == fps * total_seconds + frame,
            0 <= frame < fps,
            0 <= n < 86400 * fps,
            0 < fps,
    ;
    let total_minutes = total_seconds / 60;
    let second = total_seconds % 60;
    let minute = total_minutes % 60;
    let hour = total_minutes / 60;
    assert(total_seconds == 60 * total_minutes + second && 0 <= second < 60);
    assert(total_minutes == 60 * hour + minute && 0 <= minute < 60 && 0 <= hour < 24);
    assert(fields_valid(fps, false, hour, minute, second, frame));
    assert(frame_number_of(fps, false, hour, minute, second, frame) == (3600 * hour + 60 * minute
        + second) * fps + frame) by (nonlinear_arith);
    assert(3600 * hour + 60 * minute + second == total_seconds);
    assert(total_seconds * fps == fps * total_seconds) by (nonlinear_arith);
    assert(frame_number_of(fps, false, hour, minute, second, frame) == n);
}

/// Every valid timecode's frame number is in range, and decomposing it
/// yields the original fields: `fields_of` inverts `frame_number_of` on
/// valid fields.
pub proof fn lemma_timecode_round_trip(
    fps: int,
    drop_frame: bool,
    hour: int,
    minute: int,
    second: int,
    frame: int,
)
    requires
        valid_rate(fps, drop_frame),
        fields_valid(fps, drop_frame, hour, minute, second, frame),
    ensures
        0 <= frame_number_of(fps, drop_frame, hour, minute, second, frame) < max_frame_count(
            fps,
            drop_frame,
        ),
        fields_of(
            fps,
            drop_frame,
            frame_number_of(fps, drop_frame, hour, minute, second, frame),
        ) == (hour, minute, second, frame),
{
    lemma_rate_constants(fps, drop_frame);
    if drop_frame {
        lemma_drop_to_frame(fps, hour, minute, second, frame);
    } else {
        lemma_nondrop_to_frame(fps, hour, minute, second, frame);
    }
}

/// Decomposing any in-range frame number yields valid fields whose forward
/// conversion gives back the same frame number: `frame_number_of` inverts
/// `fields_of` on `[0, max_frame_count)`.
pub proof fn lemma_frame_number_round_trip(fps: int, drop_frame: bool, n: int)
    requires
        valid_rate(fps, drop_frame),
        0 <= n < max_frame_count(fps, drop_frame),
    ensures
        ({
            let (hour, minute, second, frame) = fields_of(fps, drop_frame, n);
            &&& fields_valid(fps, drop_frame, hour, minute, second, frame)
            &&& frame_number_of(fps, drop_frame, hour, minute, second, frame) == n
        }),
{
    lemma_rate_constants(fps, drop_frame);
    if drop_frame {
        lemma_drop_from_frame(fps, n);
    } else {
        lemma_nondrop_from_frame(fps, n);
    }
}


/// Wraparound: normalizing `max_frame_count` lands on the same frame
/// number as normalizing 0, and frame number 0 is `00:00:00:00`, so one
/// frame past the last frame of the day is the start of the day.
pub proof fn lemma_wraparound(fps: int, drop_frame: bool)
    requires
        valid_rate(fps, drop_frame),
    ensures
        max_frame_count(fps, drop_frame) % max_frame_count(fps, drop_frame) == 0int % max_frame_count(
            fps,
            drop_frame,
        ),
        (max_frame_count(fps, drop_frame) - 1 + 1) % max_frame_count(fps, drop_frame) == 0,
        fields_of(fps, drop_frame, 0) == (0int, 0int, 0int, 0int),
{
    lemma_rate_constants(fps, drop_frame);
    let max = max_frame_count(fps, drop_frame);
    lemma_mod_self_0(max);
    lemma_small_mod(0, max as nat);
    lemma_timecode_round_trip(fps, drop_frame, 0, 0, 0, 0);
    assert(frame_number_of(fps, drop_frame, 0, 0, 0, 0) == 0) by {
        assert(3600 * fps * 0int == 0 && 60 * fps * 0int == 0 && fps * 0int == 0) by (nonlinear_arith);
        assert(dropped_per_minute(fps) * (9 * (6 * 0 + 0int / 10) + 0int % 10) == 0) by (nonlinear_arith);
    }
}

/// Total count of valid frame numbers in a 24-hour day.
pub fn max_frames(fps: u32, drop_frame: bool) -> (r: u32)
    requires
        valid_rate(fps as int, drop_frame),
    ensures
        r as int == max_frame_count(fps as int, drop_frame),
        1 <= r <= 5184000,
{
    proof {
        lemma_rate_constants(fps as int, drop_frame);
    }
    if drop_frame {
        86400 * fps - 144 * (18 * (fps / 30))
    } else {
        86400 * fps
    }
}

/// Given the elements of a timecode, calculate the frame offset from zero,
/// or `None` when the fields are not a legal point on the rate's timeline.
pub fn calculate_frame_number(
    fps: u32,
    drop_frame: bool,
    hour: u32,
    minute: u32,
    second: u32,
    frame: u32,
) -> (r: Option<u32>)
    requires
        valid_rate(fps as int, drop_frame),
    ensures
        match r {
            Some(n) => fields_valid(
                fps as int,
                drop_frame,
                hour as int,
                minute as int,
                second as int,
                frame as int,
            ) && n as int == frame_number_of(
                fps as int,
                drop_frame,
                hour as int,
                minute as int,
                second as int,
                frame as int,
            ),
            None => !fields_valid(
                fps as int,
                drop_frame,
                hour as int,
                minute as int,
                second as int,
                frame as int,
            ),
        },
{
    proof {
        lemma_rate_constants(fps as int, drop_frame);
    }
    let dpm = fps / 15;
    if hour > 23 || minute > 59 || second > 59 || frame >= fps || (drop_frame && second == 0
        && minute % 10 != 0 && frame < dpm) {
        return None;
    }
    proof {
        lemma_timecode_round_trip(
            fps as int,
            drop_frame,
            hour as int,
            minute as int,
            second as int,
            frame as int,
        );
    }
    let frames_per_minute = 60 * fps;
    let frames_per_hour = 60 * frames_per_minute;
    assert(frames_per_hour * hour + frames_per_minute * minute + fps * second + frame
        == naive_frame_number(fps as int, hour as int, minute as int, second as int, frame as int)
        <= 5184000 + 144 * 18 * 4) by (nonlinear_arith)
        requires
            frames_per_minute == 60 * fps,
            frames_per_hour == 60 * frames_per_minute,
            0 <= hour <= 23,
            0 <= minute <= 59,
            0 <= second <= 59,
            0 <= frame < fps,
            fps <= 60,
            naive_frame_number(
                fps as int,
                hour as int,
                minute as int,
                second as int,
                frame as int,
            ) == 3600 * (fps as int) * hour + 60 * (fps as int) * minute + (fps as int) * second
                + frame,
    ;
    let naive = frames_per_hour * hour + frames_per_minute * minute + fps * second + frame;
    if drop_frame {
        let tens = hour * 6 + minute / 10;
        let rem = minute % 10;
        assert(tens * (9 * dpm) + rem * dpm == dropped_frames(
            fps as int,
            hour as int,
            minute as int,
        )) by (nonlinear_arith)
            requires
                tens == hour * 6 + minute / 10,
                rem == minute % 10,
                dpm == dropped_per_minute(fps as int),
                dropped_frames(fps as int, hour as int, minute as int) == dropped_per_minute(
                    fps as int,
                ) * (9 * (6 * (hour as int) + (minute as int) / 10) + (minute as int) % 10),
        ;
        assert(naive >= tens * (9 * dpm) + rem * dpm);
        Some(naive - tens * (9 * dpm) - rem * dpm)
    } else {
        Some(naive)
    }
}

/// Given an in-range frame number, calculate the fields of its time code.
pub fn calculate_time_code(fps: u32, drop_frame: bool, frame_number: u32) -> (r: (u8, u8, u8, u8))
    requires
        valid_rate(fps as int, drop_frame),
        (frame_number as int) < max_frame_count(fps as int, drop_frame),
    ensures
        (r.0 as int, r.1 as int, r.2 as int, r.3 as int) == fields_of(
            fps as int,
            drop_frame,
            frame_number as int,
        ),
        fields_valid(fps as int, drop_frame, r.0 as int, r.1 as int, r.2 as int, r.3 as int),
        frame_number_of(fps as int, drop_frame, r.0 as int, r.1 as int, r.2 as int, r.3 as int)
            == frame_number as int,
{
    proof {
        lemma_rate_constants(fps as int, drop_frame);
        lemma_frame_number_round_trip(fps as int, drop_frame, frame_number as int);
    }
    if drop_frame {
        let dpm = fps / 15;
        let frames_per_minute = 60 * fps;
        let frames_per_drop_minute = frames_per_minute - dpm;
        let frames_per_ten = frames_per_minute + 9 * frames_per_drop_minute;
        let frames_per_hour = 6 * frames_per_ten;
        let hour = frame_number / frames_per_hour;
        let in_hour = frame_number % frames_per_hour;
        let tens = in_hour / frames_per_ten;
        let in_ten = in_hour % frames_per_ten;
        if in_ten < frames_per_minute {
            (hour as u8, (10 * tens) as u8, (in_ten / fps) as u8, (in_ten % fps) as u8)
        } else {
            let past = in_ten - frames_per_minute;
            let realigned = past % frames_per_drop_minute + dpm;
            (
                hour as u8,
                (10 * tens + 1 + past / frames_per_drop_minute) as u8,
                (realigned / fps) as u8,
                (realigned % fps) as u8,
            )
        }
    } else {
        let total_seconds = frame_number / fps;
        let total_minutes = total_seconds / 60;
        (
            (total_minutes / 60) as u8,
            (total_minutes % 60) as u8,
            (total_seconds % 60) as u8,
            (frame_number % fps) as u8,
        )
    }
}


/// Given a frame number that has not been normalized, calculate the
/// fields of its time code, or report `FrameNumberOutOfRange` when it is
/// at or past the rate's maximum.
pub fn frame_number_to_timecode(fps: u32, drop_frame: bool, frame_number: u32) -> (r: Result<
    (u8, u8, u8, u8),
    crate::TimecodeError,
>)
    requires
        valid_rate(fps as int, drop_frame),
    ensures
        match r {
            Ok(fields) => {
                &&& (frame_number as int) < max_frame_count(fps as int, drop_frame)
                &&& (fields.0 as int, fields.1 as int, fields.2 as int, fields.3 as int)
                    == fields_of(fps as int, drop_frame, frame_number as int)
            },
            Err(e) => {
                &&& (frame_number as int) >= max_frame_count(fps as int, drop_frame)
                &&& e.kind == crate::TimecodeErrorKind::FrameNumberOutOfRange
            },
        },
{
    let max = max_frames(fps, drop_frame);
    if frame_number < max {
        Ok(calculate_time_code(fps, drop_frame, frame_number))
    } else {
        Err(crate::TimecodeError { kind: crate::TimecodeErrorKind::FrameNumberOutOfRange })
    }
}

} // verus!
