//! Evaluation behaviour of leaf tracks, sets and blends.

use tracks::animatable::{Animatable, EntityPath, NamedPropRef};
use tracks::animation::Animation;
use tracks::curve_track::CurveTrack;
use tracks::curves::{AnimCurve, AnimKey, Key, ScalarCurve};
use tracks::timing::{CurveTime, Loop};
use tracks::track::{Track, TrackNode, TrackSetFromResource};
use tracks::track_set::TrackSet;
use tracks::weighted_tracks::WeightedTracks;
use std::rc::Rc;

fn prop(name: &str) -> NamedPropRef {
    NamedPropRef::new(EntityPath::This, name)
}

fn scalar_keys() -> ScalarCurve {
    ScalarCurve::LinearKeyFrame(vec![Key { time: 0, value: 0 }, Key { time: 1000, value: 1000 }])
}

fn anim_keys() -> AnimCurve {
    AnimCurve::LinearKeyFrame(vec![
        AnimKey { time: 0, value: Animatable::new_scalar(0) },
        AnimKey { time: 1000, value: Animatable::new_scalar(1000) },
    ])
}

fn leaf(loop_type: Loop, duration: i64, curve_time: CurveTime) -> CurveTrack {
    CurveTrack {
        curve: anim_keys(),
        offset: 0,
        property: prop("x"),
        loop_type,
        duration,
        curve_time,
    }
}

#[test]
fn animation_test_animation() {
    let kf = Animation {
        curve: scalar_keys(),
        offset: 0,
        property: prop("x"),
        loop_type: Loop::Once,
        duration: 1000,
        curve_time: CurveTime::Absolute,
    };
    assert_eq!(kf.update(100), vec![(prop("x"), 100)]);
    assert_eq!(kf.update(600), vec![(prop("x"), 600)]);
}

#[test]
fn curve_track_test_animation() {
    let kf = leaf(Loop::Once, 1000, CurveTime::Absolute);
    assert_eq!(kf.value_at(100), vec![(prop("x"), Animatable::new_scalar(100))]);
    assert_eq!(kf.value_at(600), vec![(prop("x"), Animatable::new_scalar(600))]);
}

#[test]
fn test_linear_curve_clamps() {
    let curve = scalar_keys();
    assert_eq!(curve.value(250), 250);
    assert_eq!(curve.value(-1000), 0);
    assert_eq!(curve.value(2000), 1000);
}

#[test]
fn test_once_track_finishes() {
    let kf = leaf(Loop::Once, 1000, CurveTime::Absolute);
    assert_eq!(kf.value_at(100), vec![(prop("x"), Animatable::new_scalar(100))]);
    assert_eq!(kf.value_at(600), vec![(prop("x"), Animatable::new_scalar(600))]);
    assert_eq!(kf.value_at(1500), vec![]);
}

#[test]
fn test_forever_wraps() {
    let kf = leaf(Loop::Forever, 1000, CurveTime::Absolute);
    assert_eq!(kf.value_at(1500), kf.value_at(500));
    assert_eq!(kf.value_at(2300), kf.value_at(300));
}

#[test]
fn test_relative_scaling() {
    let kf = leaf(Loop::Once, 2000, CurveTime::Relative);
    assert_eq!(kf.value_at(1000), vec![(prop("x"), Animatable::new_scalar(500))]);
}

#[test]
fn test_fixed_value_constant() {
    let kf = CurveTrack::new_fixed_value(prop("y"), Animatable::new_scalar(420));
    let expect = vec![(prop("y"), Animatable::new_scalar(420))];
    assert_eq!(kf.value_at(0), expect);
    assert_eq!(kf.value_at(123), expect);
    assert_eq!(kf.value_at(987654321), expect);
}

#[test]
fn test_scalar_fixed_value_constant() {
    let kf = Animation::new_fixed_value(prop("y"), 77);
    assert_eq!(kf.update(0), vec![(prop("y"), 77)]);
    assert_eq!(kf.update(31536000000), vec![(prop("y"), 77)]);
}

#[test]
fn test_track_set_order() {
    let a = CurveTrack::new_fixed_value(prop("a"), Animatable::new_scalar(1000));
    let b = CurveTrack::new_fixed_value(prop("b"), Animatable::new_scalar(2000));
    let set = TrackSet { tracks: vec![TrackNode::Curve(a), TrackNode::Curve(b)] };
    assert_eq!(
        set.value_at(400),
        vec![
            (prop("a"), Animatable::new_scalar(1000)),
            (prop("b"), Animatable::new_scalar(2000)),
        ]
    );
}

#[test]
fn test_weighted_blend_same_property() {
    let a = CurveTrack::new_fixed_value(prop("x"), Animatable::new_scalar(0));
    let b = CurveTrack::new_fixed_value(prop("x"), Animatable::new_scalar(1000));
    let w = WeightedTracks {
        tracks: vec![(1000, TrackNode::Curve(a)), (1000, TrackNode::Curve(b))],
    };
    assert_eq!(w.value_at(5), vec![(prop("x"), Animatable::new_scalar(500))]);
}

#[test]
fn test_weighted_blend_uneven_weights() {
    let a = CurveTrack::new_fixed_value(prop("x"), Animatable::new_scalar(0));
    let b = CurveTrack::new_fixed_value(prop("x"), Animatable::new_scalar(1000));
    let w = WeightedTracks {
        tracks: vec![(3000, TrackNode::Curve(a)), (1000, TrackNode::Curve(b))],
    };
    assert_eq!(w.value_at(5), vec![(prop("x"), Animatable::new_scalar(250))]);
}

#[test]
fn test_weighted_distinct_properties_kept() {
    let a = CurveTrack::new_fixed_value(prop("a"), Animatable::new_scalar(100));
    let b = CurveTrack::new_fixed_value(prop("b"), Animatable::new_scalar(200));
    let w = WeightedTracks {
        tracks: vec![(1000, TrackNode::Curve(a)), (2000, TrackNode::Curve(b))],
    };
    assert_eq!(
        w.value_at(0),
        vec![
            (prop("a"), Animatable::new_scalar(100)),
            (prop("b"), Animatable::new_scalar(200)),
        ]
    );
}

#[test]
fn test_shared_resource_delegates() {
    let a = CurveTrack::new_fixed_value(prop("a"), Animatable::new_scalar(5));
    let set = Rc::new(TrackSet { tracks: vec![TrackNode::Curve(a)] });
    let wrapper = TrackSetFromResource { resource: set.clone() };
    assert_eq!(wrapper.value_at(42), set.value_at(42));
}

#[test]
fn test_multi_channel_interpolation() {
    let kf = CurveTrack {
        curve: AnimCurve::LinearKeyFrame(vec![
            AnimKey { time: 0, value: Animatable { value: vec![0, 1000] } },
            AnimKey { time: 1000, value: Animatable { value: vec![1000, 3000] } },
        ]),
        offset: 0,
        property: prop("v"),
        loop_type: Loop::Once,
        duration: 1000,
        curve_time: CurveTime::Absolute,
    };
    assert_eq!(kf.value_at(500), vec![(prop("v"), Animatable { value: vec![500, 2000] })]);
}
