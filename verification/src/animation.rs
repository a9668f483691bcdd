//! A scalar leaf track: one scalar curve, play parameters, and the
//! property the sampled value is written to.

use vstd::prelude::*;
use vstd::arithmetic::div_mod::{lemma_mod_add_multiples_vanish, lemma_small_mod};
use crate::animatable::{NamedPropRef, PropRefView};
use crate::curves::{ScalarCurve, MAX_COORD};
use crate::timing::{compute_param, map_time, play_params_wf, MAX_TIME_MS, WEEK_MS};
pub use crate::timing::{CurveTime, Loop};

verus! {

/// A scalar animation: samples its curve at the mapped time and yields
/// the value for its target property.
#[derive(Debug)]
pub struct Animation {
    pub curve: ScalarCurve,
    pub offset: i64,
    pub property: NamedPropRef,
    pub loop_type: Loop,
    pub duration: i64,
    pub curve_time: CurveTime,
}

impl Animation {
    pub open spec fn wf(&self) -> bool {
        play_params_wf(self.offset, self.duration) && self.curve.wf()
    }

    /// The (property, value) pairs this animation produces at an elapsed
    /// time: none once a `Once` track has finished, otherwise exactly one.
    pub open spec fn model_at(&self, elapsed: int) -> Seq<(PropRefView, int)> {
        match map_time(self.offset as int, self.duration as int, self.loop_type,
            self.curve_time, elapsed) {
            Option::None => Seq::empty(),
            Option::Some(p) => seq![(self.property@, self.curve.model_value(p))],
        }
    }

    /// A track holding `value` forever, regardless of elapsed time.
    pub fn new_fixed_value(property: NamedPropRef, value: i64) -> (r: Animation)
        requires
            -MAX_COORD <= value <= MAX_COORD,
        ensures
            r.curve == ScalarCurve::FixedValue(value),
            r.offset == 0,
            r.property == property,
            r.loop_type == Loop::Forever,
            r.duration == WEEK_MS,
            r.curve_time == CurveTime::Absolute,
            r.wf(),
    {
        Animation {
            curve: ScalarCurve::FixedValue(value),
            offset: 0,
            property,
            loop_type: Loop::Forever,
            duration: WEEK_MS,
            curve_time: CurveTime::Absolute,
        }
    }

    /// Evaluate at an elapsed time in milliseconds.
    pub fn update(&self, elapsed: i64) -> (r: Vec<(NamedPropRef, i64)>)
        requires
            self.wf(),
            -MAX_TIME_MS <= elapsed <= MAX_TIME_MS,
        ensures
            r@.len() == self.model_at(elapsed as int).len(),
            forall|k: int| 0 <= k < r@.len() ==> (#[trigger] r@[k]).0@
                == self.model_at(elapsed as int)[k].0
                && r@[k].1 as int == self.model_at(elapsed as int)[k].1,
    {
        match compute_param(self.offset, self.duration, self.loop_type, self.curve_time,
            elapsed) {
            Option::None => Vec::new(),
            Option::Some(param) => {
                let v = self.curve.value(param);
                let mut out: Vec<(NamedPropRef, i64)> = Vec::new();
                out.push((self.property.clone(), v));
                out
            },
        }
    }
}

/// Wrap equivalence: a track looping forever repeats itself with its
/// duration as period; one whole period after any instant strictly inside
/// the first period, it produces the same output.
pub proof fn lemma_wrap_equivalence(a: Animation, x: int)
    requires
        a.wf(),
        a.loop_type == Loop::Forever,
        0 < x < a.duration,
    ensures
        a.model_at(a.offset + a.duration + x) == a.model_at(a.offset + x),
{
    lemma_mod_add_multiples_vanish(x, a.duration as int);
    lemma_small_mod(x as nat, a.duration as nat);
    assert((a.duration + x) % (a.duration as int) == x);
}

/// A fixed-value track looping forever produces the same single output at
/// every elapsed time.
pub proof fn lemma_fixed_value_constant(a: Animation, t1: int, t2: int)
    requires
        a.wf(),
        a.loop_type == Loop::Forever,
        a.curve is FixedValue,
    ensures
        a.model_at(t1) == a.model_at(t2),
{
}

} // verus!
