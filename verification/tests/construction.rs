//! Construction from declarative configuration blocks, and every
//! rejection the builder can produce.

use tracks::animatable::{Animatable, EntityPath, NamedPropRef};
use tracks::animation::Animation;
use tracks::config::{from_config, BuildError, ConfigValue, FieldName, Registry};
use tracks::curve_track::CurveTrack;
use tracks::track::{Track, TrackNode};
use tracks::track_set::TrackSet;

fn prop(name: &str) -> NamedPropRef {
    NamedPropRef::new(EntityPath::This, name)
}

fn field(name: &str, v: ConfigValue) -> (String, ConfigValue) {
    (String::from(name), v)
}

fn tagged(tag: &str, data: ConfigValue) -> ConfigValue {
    ConfigValue::Tagged(String::from(tag), Box::new(data))
}

fn key_record(time: i64, value: i64) -> ConfigValue {
    ConfigValue::Record(vec![
        field("time", ConfigValue::Number(time)),
        field("value", ConfigValue::Number(value)),
    ])
}

/// A `key_framed` block with two keys over one
/// second, looping forever.
fn key_framed_forever() -> ConfigValue {
    tagged("key_framed", ConfigValue::Record(vec![
        field("property", ConfigValue::PropRef(prop("x"))),
        field("keys", ConfigValue::List(vec![key_record(0, 0), key_record(1000, 1000)])),
        field("loop", ConfigValue::Text(String::from("forever"))),
    ]))
}

#[test]
fn test_animation_from_pon() {
    let kf = Animation::from_config(&key_framed_forever()).unwrap();
    assert_eq!(kf.update(100), vec![(prop("x"), 100)]);
    assert_eq!(kf.update(600), vec![(prop("x"), 600)]);
}

#[test]
fn test_animation_from_pon_alternative_syntax() {
    let cfg = tagged("key_framed", ConfigValue::Record(vec![
        field("property", ConfigValue::PropRef(prop("x"))),
        field("keys", ConfigValue::List(vec![
            ConfigValue::List(vec![ConfigValue::Number(0), ConfigValue::Number(0)]),
            key_record(1000, 1000),
        ])),
        field("loop", ConfigValue::Text(String::from("forever"))),
    ]));
    let kf = Animation::from_config(&cfg).unwrap();
    assert_eq!(kf.update(100), vec![(prop("x"), 100)]);
    assert_eq!(kf.update(600), vec![(prop("x"), 600)]);
}

#[test]
fn test_scalar_fixed_value_from_config() {
    let cfg = tagged("fixed_value", ConfigValue::Record(vec![
        field("property", ConfigValue::PropRef(prop("x"))),
        field("value", ConfigValue::Number(250)),
    ]));
    let kf = Animation::from_config(&cfg).unwrap();
    assert_eq!(kf.update(0), vec![(prop("x"), 250)]);
    assert_eq!(kf.update(5000), vec![(prop("x"), 250)]);
}

#[test]
fn test_scalar_rejects_composite_value() {
    let cfg = tagged("key_framed", ConfigValue::Record(vec![
        field("property", ConfigValue::PropRef(prop("x"))),
        field("keys", ConfigValue::List(vec![
            ConfigValue::Record(vec![
                field("time", ConfigValue::Number(0)),
                field("value", ConfigValue::List(vec![ConfigValue::Number(1),
                    ConfigValue::Number(2)])),
            ]),
        ])),
    ]));
    assert!(matches!(Animation::from_config(&cfg), Err(BuildError::MalformedKey)));
}

#[test]
fn curve_track_test_animation_from_pon() {
    let reg = Registry::new();
    let kf = from_config(&key_framed_forever(), &reg).unwrap();
    assert_eq!(kf.value_at(100), vec![(prop("x"), Animatable::new_scalar(100))]);
    assert_eq!(kf.value_at(600), vec![(prop("x"), Animatable::new_scalar(600))]);
}

#[test]
fn curve_track_test_animation_from_pon_alternative_syntax() {
    let reg = Registry::new();
    let cfg = tagged("key_framed", ConfigValue::Record(vec![
        field("property", ConfigValue::PropRef(prop("x"))),
        field("keys", ConfigValue::List(vec![
            ConfigValue::List(vec![ConfigValue::Number(0), ConfigValue::Number(0)]),
            key_record(1000, 1000),
        ])),
        field("loop", ConfigValue::Text(String::from("forever"))),
    ]));
    let kf = from_config(&cfg, &reg).unwrap();
    assert_eq!(kf.value_at(100), vec![(prop("x"), Animatable::new_scalar(100))]);
    assert_eq!(kf.value_at(600), vec![(prop("x"), Animatable::new_scalar(600))]);
}

#[test]
fn test_forever_wraps_from_config() {
    let reg = Registry::new();
    let kf = from_config(&key_framed_forever(), &reg).unwrap();
    assert_eq!(kf.value_at(1100), kf.value_at(100));
}

#[test]
fn test_fixed_value_from_config() {
    let reg = Registry::new();
    let cfg = tagged("fixed_value", ConfigValue::Record(vec![
        field("property", ConfigValue::PropRef(prop("x"))),
        field("value", ConfigValue::Number(900)),
    ]));
    let kf = from_config(&cfg, &reg).unwrap();
    assert_eq!(kf.value_at(100), vec![(prop("x"), Animatable::new_scalar(900))]);
    assert_eq!(kf.value_at(999999), vec![(prop("x"), Animatable::new_scalar(900))]);
}

#[test]
fn test_defaults_applied() {
    // duration defaults to one second, loop to once, curve time to absolute
    let reg = Registry::new();
    let cfg = tagged("key_framed", ConfigValue::Record(vec![
        field("property", ConfigValue::PropRef(prop("x"))),
        field("keys", ConfigValue::List(vec![key_record(0, 0), key_record(1000, 1000)])),
    ]));
    let kf = from_config(&cfg, &reg).unwrap();
    assert_eq!(kf.value_at(250), vec![(prop("x"), Animatable::new_scalar(250))]);
    assert_eq!(kf.value_at(1500), vec![]);
}

#[test]
fn test_track_set_from_config() {
    let reg = Registry::new();
    let cfg = tagged("track_set", ConfigValue::List(vec![
        tagged("fixed_value", ConfigValue::Record(vec![
            field("property", ConfigValue::PropRef(prop("a"))),
            field("value", ConfigValue::Number(1)),
        ])),
        tagged("fixed_value", ConfigValue::Record(vec![
            field("property", ConfigValue::PropRef(prop("b"))),
            field("value", ConfigValue::Number(2)),
        ])),
    ]));
    let set = from_config(&cfg, &reg).unwrap();
    assert_eq!(
        set.value_at(7),
        vec![(prop("a"), Animatable::new_scalar(1)), (prop("b"), Animatable::new_scalar(2))]
    );
}

#[test]
fn test_weighted_tracks_from_config() {
    let reg = Registry::new();
    let cfg = tagged("weighted_tracks", ConfigValue::List(vec![
        ConfigValue::List(vec![ConfigValue::Number(1000), tagged("fixed_value",
            ConfigValue::Record(vec![
                field("property", ConfigValue::PropRef(prop("x"))),
                field("value", ConfigValue::Number(0)),
            ]))]),
        ConfigValue::List(vec![ConfigValue::Number(1000), tagged("fixed_value",
            ConfigValue::Record(vec![
                field("property", ConfigValue::PropRef(prop("x"))),
                field("value", ConfigValue::Number(1000)),
            ]))]),
    ]));
    let w = from_config(&cfg, &reg).unwrap();
    assert_eq!(w.value_at(3), vec![(prop("x"), Animatable::new_scalar(500))]);
}

#[test]
fn test_resource_reference_resolves() {
    let mut reg = Registry::new();
    let inner = CurveTrack::new_fixed_value(prop("a"), Animatable::new_scalar(5));
    reg.insert(String::from("walk"), TrackSet { tracks: vec![TrackNode::Curve(inner)] });
    let cfg = tagged("track_set_from_resource", ConfigValue::Text(String::from("walk")));
    let t = from_config(&cfg, &reg).unwrap();
    assert_eq!(t.value_at(9), vec![(prop("a"), Animatable::new_scalar(5))]);
}

#[test]
fn test_nonpositive_duration_rejected() {
    let reg = Registry::new();
    let cfg = tagged("key_framed", ConfigValue::Record(vec![
        field("property", ConfigValue::PropRef(prop("x"))),
        field("duration", ConfigValue::Number(0)),
        field("keys", ConfigValue::List(vec![key_record(0, 0)])),
    ]));
    assert!(matches!(from_config(&cfg, &reg), Err(BuildError::NonPositiveDuration)));
    let cfg2 = tagged("key_framed", ConfigValue::Record(vec![
        field("property", ConfigValue::PropRef(prop("x"))),
        field("duration", ConfigValue::Number(-500)),
        field("keys", ConfigValue::List(vec![key_record(0, 0)])),
    ]));
    assert!(matches!(from_config(&cfg2, &reg), Err(BuildError::NonPositiveDuration)));
}

#[test]
fn test_empty_keys_rejected() {
    let reg = Registry::new();
    let cfg = tagged("key_framed", ConfigValue::Record(vec![
        field("property", ConfigValue::PropRef(prop("x"))),
        field("keys", ConfigValue::List(vec![])),
    ]));
    assert!(matches!(from_config(&cfg, &reg), Err(BuildError::EmptyKeys)));
}

#[test]
fn test_unrecognized_tag_rejected() {
    let reg = Registry::new();
    let cfg = tagged("warp_field", ConfigValue::Record(vec![]));
    match from_config(&cfg, &reg) {
        Err(BuildError::UnrecognizedType(tag)) => assert_eq!(tag, "warp_field"),
        other => panic!("expected an unrecognized type error, got {:?}", other),
    }
}

#[test]
fn test_absent_resource_rejected() {
    let reg = Registry::new();
    let cfg = tagged("track_set_from_resource", ConfigValue::Text(String::from("missing")));
    match from_config(&cfg, &reg) {
        Err(BuildError::UnknownResource(id)) => assert_eq!(id, "missing"),
        other => panic!("expected an unknown resource error, got {:?}", other),
    }
}

#[test]
fn test_missing_and_malformed_fields_rejected() {
    let reg = Registry::new();
    let no_prop = tagged("key_framed", ConfigValue::Record(vec![
        field("keys", ConfigValue::List(vec![key_record(0, 0)])),
    ]));
    assert!(matches!(from_config(&no_prop, &reg),
        Err(BuildError::MissingField(FieldName::Property))));
    let bad_prop = tagged("key_framed", ConfigValue::Record(vec![
        field("property", ConfigValue::Number(3)),
        field("keys", ConfigValue::List(vec![key_record(0, 0)])),
    ]));
    assert!(matches!(from_config(&bad_prop, &reg),
        Err(BuildError::WrongFieldShape(FieldName::Property))));
    let no_keys = tagged("key_framed", ConfigValue::Record(vec![
        field("property", ConfigValue::PropRef(prop("x"))),
    ]));
    assert!(matches!(from_config(&no_keys, &reg),
        Err(BuildError::MissingField(FieldName::Keys))));
    let no_value = tagged("fixed_value", ConfigValue::Record(vec![
        field("property", ConfigValue::PropRef(prop("x"))),
    ]));
    assert!(matches!(from_config(&no_value, &reg),
        Err(BuildError::MissingField(FieldName::Value))));
    let not_tagged = ConfigValue::Number(4);
    assert!(matches!(from_config(&not_tagged, &reg), Err(BuildError::NotATrackConfig)));
    let bad_data = tagged("key_framed", ConfigValue::Number(4));
    assert!(matches!(from_config(&bad_data, &reg),
        Err(BuildError::WrongFieldShape(FieldName::Config))));
}

#[test]
fn test_bad_enum_values_rejected() {
    let reg = Registry::new();
    let bad_loop = tagged("key_framed", ConfigValue::Record(vec![
        field("property", ConfigValue::PropRef(prop("x"))),
        field("loop", ConfigValue::Text(String::from("sometimes"))),
        field("keys", ConfigValue::List(vec![key_record(0, 0)])),
    ]));
    assert!(matches!(from_config(&bad_loop, &reg), Err(BuildError::InvalidLoopValue)));
    let bad_ct = tagged("key_framed", ConfigValue::Record(vec![
        field("property", ConfigValue::PropRef(prop("x"))),
        field("curve_time", ConfigValue::Text(String::from("sideways"))),
        field("keys", ConfigValue::List(vec![key_record(0, 0)])),
    ]));
    assert!(matches!(from_config(&bad_ct, &reg), Err(BuildError::InvalidCurveTimeValue)));
}

#[test]
fn test_bad_keys_rejected() {
    let reg = Registry::new();
    let malformed = tagged("key_framed", ConfigValue::Record(vec![
        field("property", ConfigValue::PropRef(prop("x"))),
        field("keys", ConfigValue::List(vec![ConfigValue::Text(String::from("nope"))])),
    ]));
    assert!(matches!(from_config(&malformed, &reg), Err(BuildError::MalformedKey)));
    let unsorted = tagged("key_framed", ConfigValue::Record(vec![
        field("property", ConfigValue::PropRef(prop("x"))),
        field("keys", ConfigValue::List(vec![key_record(1000, 0), key_record(500, 1)])),
    ]));
    assert!(matches!(from_config(&unsorted, &reg), Err(BuildError::NonAscendingKeys)));
    let mixed_shape = tagged("key_framed", ConfigValue::Record(vec![
        field("property", ConfigValue::PropRef(prop("x"))),
        field("keys", ConfigValue::List(vec![
            key_record(0, 0),
            ConfigValue::Record(vec![
                field("time", ConfigValue::Number(1000)),
                field("value", ConfigValue::List(vec![ConfigValue::Number(1),
                    ConfigValue::Number(2)])),
            ]),
        ])),
    ]));
    assert!(matches!(from_config(&mixed_shape, &reg), Err(BuildError::KeyShapeMismatch)));
    let out_of_range = tagged("key_framed", ConfigValue::Record(vec![
        field("property", ConfigValue::PropRef(prop("x"))),
        field("keys", ConfigValue::List(vec![key_record(0, 4611686018427387904)])),
    ]));
    assert!(matches!(from_config(&out_of_range, &reg), Err(BuildError::ValueOutOfRange)));
}

#[test]
fn test_bad_weights_rejected() {
    let reg = Registry::new();
    let zero_weight = tagged("weighted_tracks", ConfigValue::List(vec![
        ConfigValue::List(vec![ConfigValue::Number(0), tagged("fixed_value",
            ConfigValue::Record(vec![
                field("property", ConfigValue::PropRef(prop("x"))),
                field("value", ConfigValue::Number(1)),
            ]))]),
    ]));
    assert!(matches!(from_config(&zero_weight, &reg), Err(BuildError::InvalidWeight)));
    let bad_item = tagged("weighted_tracks", ConfigValue::List(vec![ConfigValue::Number(9)]));
    assert!(matches!(from_config(&bad_item, &reg),
        Err(BuildError::WrongFieldShape(FieldName::WeightedItem))));
}
