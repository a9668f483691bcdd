//! Play-parameter handling: offset, duration, looping, and the conversion
//! of an elapsed playback time into the parameter a curve is sampled at.

use vstd::prelude::*;

verus! {

/// Whether a track keeps wrapping around after its duration has passed.
#[derive(Clone, Copy, Debug, PartialEq, Eq, Structural)]
pub enum Loop {
    Forever,
    Once,
}

/// How the mapped time is scaled before sampling the curve.
#[derive(Clone, Copy, Debug, PartialEq, Eq, Structural)]
pub enum CurveTime {
    /// The curve is expected to have keys between 0 and 1.
    Relative,
    /// The curve is expected to have keys between 0 and the duration,
    /// authored in seconds.
    Absolute,
}

/// Upper bound on offsets, durations and elapsed times, in milliseconds
/// (2^40 ms, roughly 34 years).
pub const MAX_TIME_MS: i64 = 1099511627776;

/// Milliseconds of one week; the duration given to fixed-value tracks.
pub const WEEK_MS: i64 = 604800000;

/// A curve parameter never leaves this range when the play parameters are
/// well formed (2^52).
pub const MAX_PARAM: i64 = 4503599627370496;

/// Offset and duration of a track are well formed: the duration is
/// positive and both stay below the supported time range.
pub open spec fn play_params_wf(offset: i64, duration: i64) -> bool {
    &&& 0 <= offset <= MAX_TIME_MS
    &&& 0 < duration <= MAX_TIME_MS
}

/// Integer division truncating toward zero, the rounding used wherever a
/// fixed-point quotient is taken.
pub open spec fn div_trunc(n: int, d: int) -> int
    recommends
        d > 0,
{
    if n >= 0 {
        n / d
    } else {
        -((-n) / d)
    }
}

/// The time mapping: shift the elapsed time by the offset, wrap it into
/// the duration when looping forever (finished tracks map to `None` when
/// played once), and scale it into the curve's parameter space.
///
/// With `Absolute` curve time the parameter is the local time itself: a
/// millisecond count is exactly a fixed-point second count in thousandths.
/// With `Relative` it is the local time divided by the duration, in
/// thousandths.
pub open spec fn map_time(
    offset: int,
    duration: int,
    loop_type: Loop,
    curve_time: CurveTime,
    elapsed: int,
) -> Option<int>
    recommends
        duration > 0,
{
    let local = elapsed - offset;
    if local > duration && loop_type == Loop::Once {
        None
    } else {
        let wrapped = if local > duration {
            local % duration
        } else {
            local
        };
        match curve_time {
            CurveTime::Absolute => Some(wrapped),
            CurveTime::Relative => Some(div_trunc(wrapped * 1000, duration)),
        }
    }
}

/// Executable form of [`map_time`].
pub fn compute_param(
    offset: i64,
    duration: i64,
    loop_type: Loop,
    curve_time: CurveTime,
    elapsed: i64,
) -> (r: Option<i64>)
    requires
        play_params_wf(offset, duration),
        -MAX_TIME_MS <= elapsed <= MAX_TIME_MS,
    ensures
        r is Some <==> map_time(offset as int, duration as int, loop_type, curve_time,
            elapsed as int) is Some,
        r matches Some(p) ==> map_time(offset as int, duration as int, loop_type, curve_time,
            elapsed as int) == Some(p as int) && -MAX_PARAM <= p <= MAX_PARAM,
{
    let local: i64 = elapsed - offset;
    let wrapped: i64 = if local > duration {
        if matches!(loop_type, Loop::Once) {
            return None;
        }
        local % duration
    } else {
        local
    };
    match curve_time {
        CurveTime::Absolute => Some(wrapped),
        CurveTime::Relative => {
            if wrapped >= 0 {
                Some((wrapped * 1000) / duration)
            } else {
                Some(-(((-wrapped) * 1000) / duration))
            }
        },
    }
}

} // verus!
