//! A leaf track over composite values: one curve, play parameters, and
//! the property the sampled value is written to.

use vstd::prelude::*;
use vstd::arithmetic::div_mod::{lemma_mod_add_multiples_vanish, lemma_small_mod};
use crate::animatable::{Animatable, NamedPropRef, PropRefView};
use crate::curves::{AnimCurve, MAX_COORD};
use crate::timing::{compute_param, map_time, play_params_wf, MAX_TIME_MS, WEEK_MS};
pub use crate::timing::{CurveTime, Loop};
use crate::track::Track;

verus! {

/// A leaf track: samples its curve at the mapped time and yields the
/// value for its target property.
#[derive(Debug)]
pub struct CurveTrack {
    pub curve: AnimCurve,
    pub offset: i64,
    pub property: NamedPropRef,
    pub loop_type: Loop,
    pub duration: i64,
    pub curve_time: CurveTime,
}

impl CurveTrack {
    pub open spec fn wf(&self) -> bool {
        play_params_wf(self.offset, self.duration) && self.curve.wf()
    }

    /// The (property, value) pairs this track produces at an elapsed
    /// time: none once a `Once` track has finished, otherwise exactly one.
    pub open spec fn model_at(&self, elapsed: int) -> Seq<(PropRefView, Seq<int>)> {
        match map_time(self.offset as int, self.duration as int, self.loop_type,
            self.curve_time, elapsed) {
            Option::None => Seq::empty(),
            Option::Some(p) => seq![(self.property@, self.curve.model_value(p))],
        }
    }

    /// A track holding `value` forever, regardless of elapsed time.
    pub fn new_fixed_value(property: NamedPropRef, value: Animatable) -> (r: CurveTrack)
        requires
            forall|c: int| 0 <= c < value@.len() ==> -MAX_COORD <= #[trigger] value@[c]
                <= MAX_COORD,
        ensures
            r.curve == AnimCurve::FixedValue(value),
            r.offset == 0,
            r.property == property,
            r.loop_type == Loop::Forever,
            r.duration == WEEK_MS,
            r.curve_time == CurveTime::Absolute,
            r.wf(),
    {
        CurveTrack {
            curve: AnimCurve::FixedValue(value),
            offset: 0,
            property,
            loop_type: Loop::Forever,
            duration: WEEK_MS,
            curve_time: CurveTime::Absolute,
        }
    }
}

impl Track for CurveTrack {
    open spec fn track_wf(&self) -> bool {
        self.wf()
    }

    open spec fn track_model(&self, elapsed: int) -> Seq<(PropRefView, Seq<int>)> {
        self.model_at(elapsed)
    }

    fn value_at(&self, elapsed: i64) -> (r: Vec<(NamedPropRef, Animatable)>) {
        match compute_param(self.offset, self.duration, self.loop_type, self.curve_time,
            elapsed) {
            Option::None => Vec::new(),
            Option::Some(param) => {
                let v = self.curve.value(param);
                let mut out: Vec<(NamedPropRef, Animatable)> = Vec::new();
                out.push((self.property.clone(), v));
                out
            },
        }
    }
}

/// Wrap equivalence for leaf tracks: a track looping forever repeats
/// itself with its duration as period; one whole period after any instant
/// strictly inside the first period, it produces the same output.
pub proof fn lemma_track_wrap_equivalence(ct: CurveTrack, x: int)
    requires
        ct.wf(),
        ct.loop_type == Loop::Forever,
        0 < x < ct.duration,
    ensures
        ct.model_at(ct.offset + ct.duration + x) == ct.model_at(ct.offset + x),
{
    lemma_mod_add_multiples_vanish(x, ct.duration as int);
    lemma_small_mod(x as nat, ct.duration as nat);
    assert((ct.duration + x) % (ct.duration as int) == x);
}

/// A fixed-value leaf track looping forever produces the same single
/// output at every elapsed time.
pub proof fn lemma_track_fixed_value_constant(ct: CurveTrack, t1: int, t2: int)
    requires
        ct.wf(),
        ct.loop_type == Loop::Forever,
        ct.curve is FixedValue,
    ensures
        ct.model_at(t1) == ct.model_at(t2),
{
}

} // verus!
