//! Interpolation curves: a curve maps a scalar parameter to a value,
//! either a constant or a piecewise-linear interpolation over ordered
//! keyframes, clamping at both ends.
//!
//! Two value shapes exist: a plain fixed-point scalar and a composite
//! [`Animatable`] interpolated channel by channel with the same scalar
//! arithmetic.

use vstd::prelude::*;
use vstd::arithmetic::div_mod::{lemma_div_is_ordered, lemma_div_multiples_vanish,
    lemma_div_pos_is_pos};
use crate::animatable::Animatable;

verus! {

/// Bound on the magnitude of key times and key values (2^40).
pub const MAX_COORD: i64 = 1099511627776;

/// A keyframe of a scalar curve: a (time, value) pair, both fixed-point.
#[derive(Clone, Copy, Debug, PartialEq, Eq, Structural)]
pub struct Key {
    pub time: i64,
    pub value: i64,
}

/// A keyframe of a composite curve.
#[derive(Debug)]
pub struct AnimKey {
    pub time: i64,
    pub value: Animatable,
}

/// A curve over scalar values: a closed set of two variants.
#[derive(Debug)]
pub enum ScalarCurve {
    FixedValue(i64),
    LinearKeyFrame(Vec<Key>),
}

/// A curve over composite values.
#[derive(Debug)]
pub enum AnimCurve {
    FixedValue(Animatable),
    LinearKeyFrame(Vec<AnimKey>),
}

/// Key times are strictly ascending.
pub open spec fn times_strictly_sorted(ts: Seq<int>) -> bool {
    forall|i: int, j: int| 0 <= i < j < ts.len() ==> ts[i] < ts[j]
}

pub open spec fn scalar_times(keys: Seq<Key>) -> Seq<int> {
    Seq::new(keys.len(), |i: int| keys[i].time as int)
}

pub open spec fn anim_times(keys: Seq<AnimKey>) -> Seq<int> {
    Seq::new(keys.len(), |i: int| keys[i].time as int)
}

/// Well-formed scalar keyframes: at least one key, strictly ascending
/// times, and coordinates within the supported range.
pub open spec fn scalar_keys_wf(keys: Seq<Key>) -> bool {
    &&& keys.len() > 0
    &&& times_strictly_sorted(scalar_times(keys))
    &&& forall|i: int| 0 <= i < keys.len() ==> -MAX_COORD <= (#[trigger] keys[i]).time <= MAX_COORD
        && -MAX_COORD <= keys[i].value <= MAX_COORD
}

/// Well-formed composite keyframes: additionally every key has the same
/// number of channels.
pub open spec fn anim_keys_wf(keys: Seq<AnimKey>) -> bool {
    &&& keys.len() > 0
    &&& times_strictly_sorted(anim_times(keys))
    &&& forall|i: int| 0 <= i < keys.len() ==> -MAX_COORD <= (#[trigger] keys[i]).time <= MAX_COORD
    &&& forall|i: int, c: int| 0 <= i < keys.len() && 0 <= c < keys[i].value@.len()
        ==> -MAX_COORD <= #[trigger] keys[i].value@[c] <= MAX_COORD
    &&& forall|i: int| 0 <= i < keys.len() ==> (#[trigger] keys[i]).value@.len()
        == keys[0].value@.len()
}

/// Index of the keyframe segment bracketing `t`, scanning from `i`: the
/// last index whose time does not exceed `t`, or the final index.
pub open spec fn bracket_from(ts: Seq<int>, t: int, i: int) -> int
    recommends
        0 <= i < ts.len(),
    decreases ts.len() - i,
{
    if i + 1 >= ts.len() {
        i
    } else if t < ts[i + 1] {
        i
    } else {
        bracket_from(ts, t, i + 1)
    }
}

/// Linear interpolation between `(t0, v0)` and `(t1, v1)` sampled at `t`,
/// with the quotient truncated toward zero.
pub open spec fn lerp(t0: int, v0: int, t1: int, v1: int, t: int) -> int
    recommends
        t0 <= t < t1,
{
    if v1 >= v0 {
        v0 + ((v1 - v0) * (t - t0)) / (t1 - t0)
    } else {
        v0 - ((v0 - v1) * (t - t0)) / (t1 - t0)
    }
}

/// Executable [`lerp`]; the result always lies between the two values.
pub fn lerp_exec(t0: i64, v0: i64, t1: i64, v1: i64, t: i64) -> (r: i64)
    requires
        -MAX_COORD <= t0 <= MAX_COORD,
        -MAX_COORD <= t1 <= MAX_COORD,
        -MAX_COORD <= v0 <= MAX_COORD,
        -MAX_COORD <= v1 <= MAX_COORD,
        t0 <= t < t1,
    ensures
        r as int == lerp(t0 as int, v0 as int, t1 as int, v1 as int, t as int),
        v0 <= v1 ==> v0 <= r <= v1,
        v1 <= v0 ==> v1 <= r <= v0,
{
    let dt: i64 = t1 - t0;
    let ft: i64 = t - t0;
    if v1 >= v0 {
        let dv: i64 = v1 - v0;
        proof {
            let dvi: int = dv as int;
            let fti: int = ft as int;
            let dti: int = dt as int;
            assert(0 <= dvi * fti && dvi * fti <= dvi * dti
                && dvi * fti <= 2199023255552 * 2199023255552) by (nonlinear_arith)
                requires
                    0 <= dvi <= 2199023255552,
                    0 <= fti,
                    fti <= dti,
                    dti <= 2199023255552,
            ;
            lemma_div_is_ordered(dvi * fti, dvi * dti, dti);
            lemma_div_multiples_vanish(dvi, dti);
            lemma_div_pos_is_pos(dvi * fti, dti);
        }
        let num: u128 = (dv as u128) * (ft as u128);
        let q128: u128 = num / (dt as u128);
        let q: i64 = q128 as i64;
        v0 + q
    } else {
        let dv: i64 = v0 - v1;
        proof {
            let dvi: int = dv as int;
            let fti: int = ft as int;
            let dti: int = dt as int;
            assert(0 <= dvi * fti && dvi * fti <= dvi * dti
                && dvi * fti <= 2199023255552 * 2199023255552) by (nonlinear_arith)
                requires
                    0 <= dvi <= 2199023255552,
                    0 <= fti,
                    fti <= dti,
                    dti <= 2199023255552,
            ;
            lemma_div_is_ordered(dvi * fti, dvi * dti, dti);
            lemma_div_multiples_vanish(dvi, dti);
            lemma_div_pos_is_pos(dvi * fti, dti);
        }
        let num: u128 = (dv as u128) * (ft as u128);
        let q128: u128 = num / (dt as u128);
        let q: i64 = q128 as i64;
        v0 - q
    }
}

/// Value of a scalar keyframe curve at parameter `t`: the first key's
/// value before the first key, the last key's value after the last key,
/// and the interpolated value over the bracketing segment in between.
pub open spec fn scalar_value_at(keys: Seq<Key>, t: int) -> int
    recommends
        scalar_keys_wf(keys),
{
    if t <= keys[0].time {
        keys[0].value as int
    } else {
        let b = bracket_from(scalar_times(keys), t, 0);
        if b + 1 >= keys.len() {
            keys[b].value as int
        } else {
            lerp(keys[b].time as int, keys[b].value as int, keys[b + 1].time as int,
                keys[b + 1].value as int, t)
        }
    }
}

/// Value of a composite keyframe curve at parameter `t`, channel by
/// channel.
pub open spec fn anim_value_at(keys: Seq<AnimKey>, t: int) -> Seq<int>
    recommends
        anim_keys_wf(keys),
{
    if t <= keys[0].time {
        keys[0].value@
    } else {
        let b = bracket_from(anim_times(keys), t, 0);
        if b + 1 >= keys.len() {
            keys[b].value@
        } else {
            Seq::new(keys[b].value@.len(), |c: int| lerp(keys[b].time as int,
                keys[b].value@[c], keys[b + 1].time as int, keys[b + 1].value@[c], t))
        }
    }
}

/// Executable scalar keyframe lookup.
pub fn scalar_linear_value(keys: &Vec<Key>, t: i64) -> (r: i64)
    requires
        scalar_keys_wf(keys@),
    ensures
        r as int == scalar_value_at(keys@, t as int),
        -MAX_COORD <= r <= MAX_COORD,
{
    if t <= keys[0].time {
        return keys[0].value;
    }
    let len: usize = keys.len();
    let ghost ts = scalar_times(keys@);
    let mut i: usize = 0;
    while i + 1 < len && keys[i + 1].time <= t
        invariant
            scalar_keys_wf(keys@),
            len == keys@.len(),
            0 <= i < keys@.len(),
            keys@[i as int].time <= t,
            t > keys@[0].time,
            ts == scalar_times(keys@),
            bracket_from(ts, t as int, i as int) == bracket_from(ts, t as int, 0),
        decreases keys@.len() - i,
    {
        i += 1;
    }
    proof {
        assert(bracket_from(ts, t as int, i as int) == i as int);
    }
    if i + 1 == len {
        keys[i].value
    } else {
        lerp_exec(keys[i].time, keys[i].value, keys[i + 1].time, keys[i + 1].value, t)
    }
}

/// Executable composite keyframe lookup.
pub fn anim_linear_value(keys: &Vec<AnimKey>, t: i64) -> (r: Animatable)
    requires
        anim_keys_wf(keys@),
    ensures
        r@ == anim_value_at(keys@, t as int),
        forall|c: int| 0 <= c < r@.len() ==> -MAX_COORD <= #[trigger] r@[c] <= MAX_COORD,
{
    if t <= keys[0].time {
        return keys[0].value.clone();
    }
    let len: usize = keys.len();
    let ghost ts = anim_times(keys@);
    let mut i: usize = 0;
    while i + 1 < len && keys[i + 1].time <= t
        invariant
            anim_keys_wf(keys@),
            len == keys@.len(),
            0 <= i < keys@.len(),
            keys@[i as int].time <= t,
            t > keys@[0].time,
            ts == anim_times(keys@),
            bracket_from(ts, t as int, i as int) == bracket_from(ts, t as int, 0),
        decreases keys@.len() - i,
    {
        i += 1;
    }
    proof {
        assert(bracket_from(ts, t as int, i as int) == i as int);
    }
    if i + 1 == len {
        keys[i].value.clone()
    } else {
        let n: usize = keys[i].value.value.len();
        let mut out: Vec<i64> = Vec::new();
        let mut c: usize = 0;
        while c < n
            invariant
                anim_keys_wf(keys@),
                len == keys@.len(),
                0 <= i as int,
                i < len,
                i as int + 1 < keys@.len(),
                keys@[i as int].time <= t,
                t < keys@[i as int + 1].time,
                n == keys@[i as int].value@.len(),
                n == keys@[i as int + 1].value@.len(),
                0 <= c <= n,
                out@.len() == c,
                forall|j: int| 0 <= j < c ==> #[trigger] out@[j] as int
                    == lerp(keys@[i as int].time as int, keys@[i as int].value@[j],
                        keys@[i as int + 1].time as int, keys@[i as int + 1].value@[j], t as int)
                    && -MAX_COORD <= out@[j] <= MAX_COORD,
            decreases n - c,
        {
            proof {
                assert(-MAX_COORD <= keys@[i as int].value@[c as int] <= MAX_COORD);
                assert(-MAX_COORD <= keys@[i as int + 1].value@[c as int] <= MAX_COORD);
            }
            let v = lerp_exec(keys[i].time, keys[i].value.value[c], keys[i + 1].time,
                keys[i + 1].value.value[c], t);
            out.push(v);
            c += 1;
        }
        let r = Animatable { value: out };
        proof {
            assert(r@ =~= anim_value_at(keys@, t as int));
        }
        r
    }
}

impl ScalarCurve {
    pub open spec fn wf(&self) -> bool {
        match self {
            ScalarCurve::FixedValue(v) => -MAX_COORD <= *v <= MAX_COORD,
            ScalarCurve::LinearKeyFrame(keys) => scalar_keys_wf(keys@),
        }
    }

    /// What this curve evaluates to at parameter `t`.
    pub open spec fn model_value(&self, t: int) -> int {
        match self {
            ScalarCurve::FixedValue(v) => *v as int,
            ScalarCurve::LinearKeyFrame(keys) => scalar_value_at(keys@, t),
        }
    }

    pub fn value(&self, t: i64) -> (r: i64)
        requires
            self.wf(),
        ensures
            r as int == self.model_value(t as int),
            -MAX_COORD <= r <= MAX_COORD,
    {
        match self {
            ScalarCurve::FixedValue(v) => *v,
            ScalarCurve::LinearKeyFrame(keys) => scalar_linear_value(keys, t),
        }
    }
}

impl AnimCurve {
    pub open spec fn wf(&self) -> bool {
        match self {
            AnimCurve::FixedValue(v) => forall|c: int| 0 <= c < v@.len()
                ==> -MAX_COORD <= #[trigger] v@[c] <= MAX_COORD,
            AnimCurve::LinearKeyFrame(keys) => anim_keys_wf(keys@),
        }
    }

    /// What this curve evaluates to at parameter `t`.
    pub open spec fn model_value(&self, t: int) -> Seq<int> {
        match self {
            AnimCurve::FixedValue(v) => v@,
            AnimCurve::LinearKeyFrame(keys) => anim_value_at(keys@, t),
        }
    }

    pub fn value(&self, t: i64) -> (r: Animatable)
        requires
            self.wf(),
        ensures
            r@ == self.model_value(t as int),
            forall|c: int| 0 <= c < r@.len() ==> -MAX_COORD <= #[trigger] r@[c] <= MAX_COORD,
    {
        match self {
            AnimCurve::FixedValue(v) => v.clone(),
            AnimCurve::LinearKeyFrame(keys) => anim_linear_value(keys, t),
        }
    }
}

} // verus!
