//! Construction of tracks from a declarative, already-parsed configuration
//! tree: recognized type tags build curve tracks, track sets, weighted
//! blends, or references into a registry of shared track sets.  Every
//! required field, value shape and numeric range is validated here, so an
//! invalid track is never built; each failure is a structured error.

use std::rc::Rc;
use vstd::prelude::*;
use crate::animatable::{Animatable, NamedPropRef};
use crate::animation::Animation;
use crate::curves::{AnimCurve, AnimKey, Key, ScalarCurve, anim_keys_wf, scalar_keys_wf,
    scalar_times, times_strictly_sorted, MAX_COORD};
use crate::curve_track::CurveTrack;
use crate::timing::{CurveTime, Loop, MAX_TIME_MS, WEEK_MS};
use crate::track::{list_wf, node_wf, TrackNode, TrackSetFromResource};
use crate::track_set::TrackSet;
use crate::weighted_tracks::{weighted_list_wf, WeightedTracks, MAX_WEIGHT};

verus! {

/// One value of the declarative configuration tree handed over by the
/// external text parser.
#[derive(Debug)]
pub enum ConfigValue {
    /// A fixed-point number in thousandths.
    Number(i64),
    Text(String),
    PropRef(NamedPropRef),
    List(Vec<ConfigValue>),
    Record(Vec<(String, ConfigValue)>),
    Tagged(String, Box<ConfigValue>),
}

/// A field a configuration error points at.
#[derive(Clone, Copy, Debug, PartialEq, Eq, Structural)]
pub enum FieldName {
    Config,
    Property,
    Value,
    Duration,
    Looping,
    CurveTiming,
    Keys,
    WeightedItem,
}

/// Why a configuration was rejected.
#[derive(Debug)]
pub enum BuildError {
    /// The type tag is not one of the recognized tags.
    UnrecognizedType(String),
    /// The top-level value is not a tagged configuration block.
    NotATrackConfig,
    MissingField(FieldName),
    WrongFieldShape(FieldName),
    InvalidLoopValue,
    InvalidCurveTimeValue,
    NonPositiveDuration,
    ValueOutOfRange,
    EmptyKeys,
    MalformedKey,
    NonAscendingKeys,
    KeyShapeMismatch,
    InvalidWeight,
    UnknownResource(String),
}

/// The registry of shared track set resources, keyed by identifier.
#[derive(Debug)]
pub struct Registry {
    pub entries: Vec<(String, Rc<TrackSet>)>,
}

pub open spec fn registry_wf(reg: Registry) -> bool {
    forall|i: int| 0 <= i < reg.entries@.len() ==> list_wf(
        (#[trigger] reg.entries@[i]).1.tracks@)
}

/// First entry index holding `id`, or -1.
pub open spec fn reg_index(entries: Seq<(String, Rc<TrackSet>)>, id: Seq<char>) -> int
    decreases entries.len(),
{
    if entries.len() == 0 {
        -1
    } else if entries[0].0@ == id {
        0
    } else {
        let r = reg_index(entries.drop_first(), id);
        if r < 0 {
            -1
        } else {
            r + 1
        }
    }
}

pub open spec fn reg_lookup(entries: Seq<(String, Rc<TrackSet>)>, id: Seq<char>) -> Option<
    Rc<TrackSet>,
> {
    let k = reg_index(entries, id);
    if k < 0 {
        Option::None
    } else {
        Option::Some(entries[k].1)
    }
}

pub proof fn lemma_reg_index(entries: Seq<(String, Rc<TrackSet>)>, id: Seq<char>)
    ensures
        -1 <= reg_index(entries, id) < entries.len(),
        reg_index(entries, id) >= 0 ==> entries[reg_index(entries, id)].0@ == id,
        reg_index(entries, id) >= 0 ==> forall|j: int| 0 <= j < reg_index(entries, id)
            ==> (#[trigger] entries[j]).0@ != id,
        reg_index(entries, id) < 0 ==> forall|j: int| 0 <= j < entries.len()
            ==> (#[trigger] entries[j]).0@ != id,
    decreases entries.len(),
{
    if entries.len() == 0 {
    } else if entries[0].0@ == id {
    } else {
        lemma_reg_index(entries.drop_first(), id);
        assert(forall|j: int| 1 <= j < entries.len() ==> #[trigger] entries[j]
            == entries.drop_first()[j - 1]);
    }
}

impl Registry {
    pub fn new() -> (r: Registry)
        ensures
            r.entries@ =~= Seq::<(String, Rc<TrackSet>)>::empty(),
            registry_wf(r),
    {
        Registry { entries: Vec::new() }
    }

    /// Publish a track set under an identifier; the registry shares it
    /// behind a reference-counted handle and never mutates it in place.
    pub fn insert(&mut self, id: String, set: TrackSet)
        ensures
            final(self).entries@.len() == old(self).entries@.len() + 1,
            forall|i: int| 0 <= i < old(self).entries@.len()
                ==> #[trigger] final(self).entries@[i] == old(self).entries@[i],
            final(self).entries@[old(self).entries@.len() as int].0 == id,
            final(self).entries@[old(self).entries@.len() as int].1 == set,
            registry_wf(*old(self)) && list_wf(set.tracks@) ==> registry_wf(*final(self)),
    {
        let rc = Rc::new(set);
        self.entries.push((id, rc));
    }

    /// Look an identifier up, handing out a shared handle to the
    /// published set.
    pub fn lookup(&self, id: &String) -> (r: Option<Rc<TrackSet>>)
        ensures
            match reg_lookup(self.entries@, id@) {
                Option::Some(s) => r matches Some(rr) && rr == s,
                Option::None => r is None,
            },
    {
        let len: usize = self.entries.len();
        let mut i: usize = 0;
        while i < len
            invariant
                len == self.entries@.len(),
                0 <= i <= len,
                forall|j: int| 0 <= j < i ==> (#[trigger] self.entries@[j]).0@ != id@,
            decreases len - i,
        {
            if text_is(&self.entries[i].0, id.as_str()) {
                proof {
                    lemma_reg_index(self.entries@, id@);
                    let k = reg_index(self.entries@, id@);
                    if k < 0 {
                        assert(self.entries@[i as int].0@ != id@);
                    } else if k < i as int {
                        assert(self.entries@[k].0@ != id@);
                    } else if (i as int) < k {
                        assert(self.entries@[i as int].0@ != id@);
                    }
                }
                return Some(self.entries[i].1.clone());
            }
            i += 1;
        }
        proof {
            lemma_reg_index(self.entries@, id@);
            let k = reg_index(self.entries@, id@);
            if k >= 0 {
                assert(self.entries@[k].0@ != id@);
            }
        }
        None
    }
}

/// Compare a string with a literal by contents.
fn text_is(s: &String, lit: &str) -> (r: bool)
    ensures
        r == (s@ == lit@),
{
    let owned: String = lit.to_owned();
    *s == owned
}

/// First field index holding `name`, or -1.
pub open spec fn field_index(fields: Seq<(String, ConfigValue)>, name: Seq<char>) -> int
    decreases fields.len(),
{
    if fields.len() == 0 {
        -1
    } else if fields[0].0@ == name {
        0
    } else {
        let r = field_index(fields.drop_first(), name);
        if r < 0 {
            -1
        } else {
            r + 1
        }
    }
}

/// The first field named `name`, if any.
pub open spec fn field_of(fields: Seq<(String, ConfigValue)>, name: Seq<char>) -> Option<
    ConfigValue,
> {
    let k = field_index(fields, name);
    if k < 0 {
        Option::None
    } else {
        Option::Some(fields[k].1)
    }
}

pub proof fn lemma_field_index(fields: Seq<(String, ConfigValue)>, name: Seq<char>)
    ensures
        -1 <= field_index(fields, name) < fields.len(),
        field_index(fields, name) >= 0 ==> fields[field_index(fields, name)].0@ == name,
        field_index(fields, name) >= 0 ==> forall|j: int| 0 <= j < field_index(fields, name)
            ==> (#[trigger] fields[j]).0@ != name,
        field_index(fields, name) < 0 ==> forall|j: int| 0 <= j < fields.len()
            ==> (#[trigger] fields[j]).0@ != name,
    decreases fields.len(),
{
    if fields.len() == 0 {
    } else if fields[0].0@ == name {
    } else {
        lemma_field_index(fields.drop_first(), name);
        assert(forall|j: int| 1 <= j < fields.len() ==> #[trigger] fields[j]
            == fields.drop_first()[j - 1]);
    }
}

/// The first field named `name`, if any.
fn get_field<'a>(fields: &'a Vec<(String, ConfigValue)>, name: &str) -> (r: Option<
    &'a ConfigValue,
>)
    ensures
        match r {
            Option::Some(v) => field_of(fields@, name@) == Option::Some(*v),
            Option::None => field_of(fields@, name@) is None,
        },
{
    let len: usize = fields.len();
    let mut i: usize = 0;
    while i < len
        invariant
            len == fields@.len(),
            0 <= i <= len,
            forall|j: int| 0 <= j < i ==> (#[trigger] fields@[j]).0@ != name@,
        decreases len - i,
    {
        if text_is(&fields[i].0, name) {
            proof {
                lemma_field_index(fields@, name@);
                let k = field_index(fields@, name@);
                if k < 0 {
                    assert(fields@[i as int].0@ != name@);
                } else if k < i as int {
                    assert(fields@[k].0@ != name@);
                } else if (i as int) < k {
                    assert(fields@[i as int].0@ != name@);
                }
            }
            return Some(&fields[i].1);
        }
        i += 1;
    }
    proof {
        lemma_field_index(fields@, name@);
        let k = field_index(fields@, name@);
        if k >= 0 {
            assert(fields@[k].0@ != name@);
        }
    }
    None
}

/// Every element is a number.
pub open spec fn all_numbers(items: Seq<ConfigValue>) -> bool {
    forall|j: int| 0 <= j < items.len() ==> (#[trigger] items[j]) is Number
}

/// Every channel stays within the coordinate range.
pub open spec fn channels_in_range(vs: Seq<int>) -> bool {
    forall|c: int| 0 <= c < vs.len() ==> -MAX_COORD <= #[trigger] vs[c] <= MAX_COORD
}

pub open spec fn num_of(v: ConfigValue) -> int {
    match v {
        ConfigValue::Number(x) => x as int,
        _ => 0,
    }
}

pub open spec fn nums_values(items: Seq<ConfigValue>) -> Seq<int> {
    Seq::new(items.len(), |j: int| num_of(items[j]))
}

/// The channels a configuration value denotes: a number is one channel, a
/// list of numbers is one channel per element.
pub open spec fn channels_of_value(v: ConfigValue) -> Option<Seq<int>> {
    match v {
        ConfigValue::Number(x) => Option::Some(seq![x as int]),
        ConfigValue::List(items) => if all_numbers(items@) {
            Option::Some(nums_values(items@))
        } else {
            Option::None
        },
        _ => Option::None,
    }
}

/// The (time, channels) a keyframe configuration denotes, in either the
/// record form `{time, value}` or the compact two-element list form.
pub open spec fn key_of(cfg: ConfigValue) -> Option<(int, Seq<int>)> {
    match cfg {
        ConfigValue::Record(fields) => match field_of(fields@, "time"@) {
            Option::Some(tv) => if tv is Number {
                match field_of(fields@, "value"@) {
                    Option::Some(vv) => match channels_of_value(vv) {
                        Option::Some(vs) => Option::Some((num_of(tv), vs)),
                        Option::None => Option::None,
                    },
                    Option::None => Option::None,
                }
            } else {
                Option::None
            },
            Option::None => Option::None,
        },
        ConfigValue::List(items) => if items@.len() == 2 && items@[0] is Number {
            match channels_of_value(items@[1]) {
                Option::Some(vs) => Option::Some((num_of(items@[0]), vs)),
                Option::None => Option::None,
            }
        } else {
            Option::None
        },
        _ => Option::None,
    }
}

pub open spec fn parsed_time(items: Seq<ConfigValue>, q: int) -> int {
    match key_of(items[q]) {
        Option::Some(tv) => tv.0,
        Option::None => 0,
    }
}

pub open spec fn parsed_channel_count(items: Seq<ConfigValue>) -> int {
    match key_of(items[0]) {
        Option::Some(tv) => tv.1.len() as int,
        Option::None => 0,
    }
}

/// First error among the keyframe configurations from index `j` on: a key
/// must parse, stay in range, come strictly after its predecessor, and
/// have as many channels as the first key.
pub open spec fn keys_err_from(items: Seq<ConfigValue>, j: int) -> Option<BuildError>
    decreases items.len() - j,
{
    if j >= items.len() || j < 0 {
        Option::None
    } else {
        match key_of(items[j]) {
            Option::None => Option::Some(BuildError::MalformedKey),
            Option::Some(tv) => if !(-MAX_COORD <= tv.0 <= MAX_COORD) || !channels_in_range(
                tv.1) {
                Option::Some(BuildError::ValueOutOfRange)
            } else if j > 0 && tv.0 <= parsed_time(items, j - 1) {
                Option::Some(BuildError::NonAscendingKeys)
            } else if tv.1.len() != parsed_channel_count(items) {
                Option::Some(BuildError::KeyShapeMismatch)
            } else {
                keys_err_from(items, j + 1)
            },
        }
    }
}

/// The parsed keyframes agree with the configuration list.
pub open spec fn keys_match(items: Seq<ConfigValue>, keys: Seq<AnimKey>) -> bool {
    &&& keys.len() == items.len()
    &&& forall|q: int| 0 <= q < keys.len() ==> key_of(items[q]) == Option::Some(
        ((#[trigger] keys[q]).time as int, keys[q].value@))
}

/// Parse one channel list.
fn parse_channels(v: &ConfigValue) -> (r: Option<Vec<i64>>)
    ensures
        match channels_of_value(*v) {
            Option::Some(vs) => r matches Some(out) && out@.len() == vs.len() && (forall|c: int|
                0 <= c < vs.len() ==> #[trigger] out@[c] as int == vs[c]),
            Option::None => r is None,
        },
{
    match v {
        ConfigValue::Number(x) => {
            let mut out: Vec<i64> = Vec::new();
            out.push(*x);
            Some(out)
        },
        ConfigValue::List(items) => {
            let len: usize = items.len();
            let mut out: Vec<i64> = Vec::new();
            let mut j: usize = 0;
            while j < len
                invariant
                    *v == ConfigValue::List(*items),
                    len == items@.len(),
                    0 <= j <= len,
                    out@.len() == j,
                    forall|q: int| 0 <= q < j ==> (#[trigger] items@[q]) is Number,
                    forall|q: int| 0 <= q < j ==> #[trigger] out@[q] as int == num_of(
                        items@[q]),
                decreases len - j,
            {
                match &items[j] {
                    ConfigValue::Number(x) => {
                        out.push(*x);
                    },
                    _ => {
                        proof {
                            assert(!all_numbers(items@)) by {
                                assert(!((items@[j as int]) is Number));
                            }
                            assert(channels_of_value(*v) is None);
                        }
                        return None;
                    },
                }
                j += 1;
            }
            Some(out)
        },
        _ => None,
    }
}

/// Parse one keyframe configuration.
fn parse_key(cfg: &ConfigValue) -> (r: Option<AnimKey>)
    ensures
        match key_of(*cfg) {
            Option::Some(tv) => r matches Some(k) && k.time as int == tv.0 && k.value@ == tv.1,
            Option::None => r is None,
        },
{
    match cfg {
        ConfigValue::Record(fields) => {
            let time: i64 = match get_field(fields, "time") {
                Option::Some(ConfigValue::Number(t)) => *t,
                _ => {
                    return None;
                },
            };
            let value = match get_field(fields, "value") {
                Option::Some(v) => match parse_channels(v) {
                    Option::Some(out) => Animatable { value: out },
                    Option::None => {
                        return None;
                    },
                },
                Option::None => {
                    return None;
                },
            };
            Some(AnimKey { time, value })
        },
        ConfigValue::List(items) => {
            if items.len() != 2 {
                return None;
            }
            let time: i64 = match &items[0] {
                ConfigValue::Number(t) => *t,
                _ => {
                    return None;
                },
            };
            match parse_channels(&items[1]) {
                Option::Some(out) => Some(AnimKey { time, value: Animatable { value: out } }),
                Option::None => None,
            }
        },
        _ => None,
    }
}

/// Parse and validate a whole keyframe list.
fn parse_keys(items: &Vec<ConfigValue>) -> (r: Result<Vec<AnimKey>, BuildError>)
    requires
        items@.len() > 0,
    ensures
        (r is Err) == (keys_err_from(items@, 0) is Some),
        r matches Err(e) ==> keys_err_from(items@, 0) == Option::Some(e),
        r matches Ok(keys) ==> anim_keys_wf(keys@) && keys_match(items@, keys@),
{
    let len: usize = items.len();
    let mut keys: Vec<AnimKey> = Vec::new();
    let mut j: usize = 0;
    while j < len
        invariant
            len == items@.len(),
            0 < len,
            0 <= j <= len,
            keys@.len() == j,
            forall|q: int| 0 <= q < j ==> key_of(items@[q]) == Option::Some(
                ((#[trigger] keys@[q]).time as int, keys@[q].value@)),
            forall|q: int| 0 <= q < j ==> -MAX_COORD <= (#[trigger] keys@[q]).time
                <= MAX_COORD,
            forall|q: int, c: int| 0 <= q < j && 0 <= c < keys@[q].value@.len() ==> -MAX_COORD
                <= #[trigger] keys@[q].value@[c] <= MAX_COORD,
            forall|a: int, b: int| 0 <= a < b < j ==> keys@[a].time < keys@[b].time,
            forall|q: int| 0 <= q < j ==> (#[trigger] keys@[q]).value@.len()
                == keys@[0].value@.len(),
            keys_err_from(items@, 0) == keys_err_from(items@, j as int),
        decreases len - j,
    {
        let key: AnimKey = match parse_key(&items[j]) {
            Option::Some(k) => k,
            Option::None => {
                proof {
                    assert(keys_err_from(items@, j as int) == Option::Some(
                        BuildError::MalformedKey));
                }
                return Err(BuildError::MalformedKey);
            },
        };
        let ghost gkey = key;
        if key.time < -MAX_COORD || key.time > MAX_COORD {
            proof {
                assert(keys_err_from(items@, j as int) == Option::Some(
                    BuildError::ValueOutOfRange));
            }
            return Err(BuildError::ValueOutOfRange);
        }
        let nch: usize = key.value.value.len();
        let mut c: usize = 0;
        while c < nch
            invariant
                len == items@.len(),
                0 <= j < len,
                nch == key.value@.len(),
                key == gkey,
                key_of(items@[j as int]) == Option::Some((key.time as int, key.value@)),
                keys_err_from(items@, 0) == keys_err_from(items@, j as int),
                0 <= c <= nch,
                forall|q: int| 0 <= q < c ==> -MAX_COORD <= #[trigger] key.value@[q]
                    <= MAX_COORD,
            decreases nch - c,
        {
            let x: i64 = key.value.value[c];
            if x < -MAX_COORD || x > MAX_COORD {
                proof {
                    assert(!channels_in_range(key.value@)) by {
                        assert(!(-MAX_COORD <= key.value@[c as int] <= MAX_COORD));
                    }
                    assert(keys_err_from(items@, j as int) == Option::Some(
                        BuildError::ValueOutOfRange));
                }
                return Err(BuildError::ValueOutOfRange);
            }
            c += 1;
        }
        proof {
            assert(channels_in_range(key.value@));
        }
        if j > 0 {
            let prev: i64 = keys[j - 1].time;
            if key.time <= prev {
                proof {
                    assert(keys@[j as int - 1].time as int == parsed_time(items@, j as int
                        - 1));
                    assert(keys_err_from(items@, j as int) == Option::Some(
                        BuildError::NonAscendingKeys));
                }
                return Err(BuildError::NonAscendingKeys);
            }
            let first_nch: usize = keys[0].value.value.len();
            if nch != first_nch {
                proof {
                    assert(keys@[0].value@.len() as int == parsed_channel_count(items@));
                    assert(keys_err_from(items@, j as int) == Option::Some(
                        BuildError::KeyShapeMismatch));
                }
                return Err(BuildError::KeyShapeMismatch);
            }
        }
        keys.push(key);
        proof {
            assert(keys@[j as int] == gkey);
            assert(keys_err_from(items@, j as int) == keys_err_from(items@, j as int + 1));
        }
        j += 1;
    }
    proof {
        assert(keys_err_from(items@, len as int) is None);
    }
    Ok(keys)
}

pub open spec fn prop_err(fields: Seq<(String, ConfigValue)>) -> Option<BuildError> {
    match field_of(fields, "property"@) {
        Option::None => Option::Some(BuildError::MissingField(FieldName::Property)),
        Option::Some(v) => if v is PropRef {
            Option::None
        } else {
            Option::Some(BuildError::WrongFieldShape(FieldName::Property))
        },
    }
}

pub open spec fn prop_of(fields: Seq<(String, ConfigValue)>) -> Option<NamedPropRef> {
    match field_of(fields, "property"@) {
        Option::Some(ConfigValue::PropRef(p)) => Option::Some(p),
        _ => Option::None,
    }
}

pub open spec fn duration_err(fields: Seq<(String, ConfigValue)>) -> Option<BuildError> {
    match field_of(fields, "duration"@) {
        Option::None => Option::None,
        Option::Some(v) => match v {
            ConfigValue::Number(d) => if d <= 0 {
                Option::Some(BuildError::NonPositiveDuration)
            } else if d > MAX_TIME_MS {
                Option::Some(BuildError::ValueOutOfRange)
            } else {
                Option::None
            },
            _ => Option::Some(BuildError::WrongFieldShape(FieldName::Duration)),
        },
    }
}

/// The duration in milliseconds; one second when the field is absent.
pub open spec fn duration_of(fields: Seq<(String, ConfigValue)>) -> int {
    match field_of(fields, "duration"@) {
        Option::Some(ConfigValue::Number(d)) => d as int,
        _ => 1000,
    }
}

pub open spec fn loop_err(fields: Seq<(String, ConfigValue)>) -> Option<BuildError> {
    match field_of(fields, "loop"@) {
        Option::None => Option::None,
        Option::Some(v) => match v {
            ConfigValue::Text(s) => if s@ == "forever"@ || s@ == "once"@ {
                Option::None
            } else {
                Option::Some(BuildError::InvalidLoopValue)
            },
            _ => Option::Some(BuildError::WrongFieldShape(FieldName::Looping)),
        },
    }
}

/// The loop type; `Once` when the field is absent.
pub open spec fn loop_of(fields: Seq<(String, ConfigValue)>) -> Loop {
    match field_of(fields, "loop"@) {
        Option::Some(ConfigValue::Text(s)) => if s@ == "forever"@ {
            Loop::Forever
        } else {
            Loop::Once
        },
        _ => Loop::Once,
    }
}

pub open spec fn curve_time_err(fields: Seq<(String, ConfigValue)>) -> Option<BuildError> {
    match field_of(fields, "curve_time"@) {
        Option::None => Option::None,
        Option::Some(v) => match v {
            ConfigValue::Text(s) => if s@ == "absolute"@ || s@ == "relative"@ {
                Option::None
            } else {
                Option::Some(BuildError::InvalidCurveTimeValue)
            },
            _ => Option::Some(BuildError::WrongFieldShape(FieldName::CurveTiming)),
        },
    }
}

/// The curve time scaling; `Absolute` when the field is absent.
pub open spec fn curve_time_of(fields: Seq<(String, ConfigValue)>) -> CurveTime {
    match field_of(fields, "curve_time"@) {
        Option::Some(ConfigValue::Text(s)) => if s@ == "absolute"@ {
            CurveTime::Absolute
        } else {
            CurveTime::Relative
        },
        _ => CurveTime::Absolute,
    }
}

/// First error of a `key_framed` block, in validation order.
pub open spec fn key_framed_err(data: ConfigValue) -> Option<BuildError> {
    match data {
        ConfigValue::Record(fields) => if prop_err(fields@) is Some {
            prop_err(fields@)
        } else if duration_err(fields@) is Some {
            duration_err(fields@)
        } else if loop_err(fields@) is Some {
            loop_err(fields@)
        } else if curve_time_err(fields@) is Some {
            curve_time_err(fields@)
        } else {
            match field_of(fields@, "keys"@) {
                Option::None => Option::Some(BuildError::MissingField(FieldName::Keys)),
                Option::Some(v) => match v {
                    ConfigValue::List(items) => if items@.len() == 0 {
                        Option::Some(BuildError::EmptyKeys)
                    } else {
                        keys_err_from(items@, 0)
                    },
                    _ => Option::Some(BuildError::WrongFieldShape(FieldName::Keys)),
                },
            }
        },
        _ => Option::Some(BuildError::WrongFieldShape(FieldName::Config)),
    }
}

/// The track a valid `key_framed` block builds.
pub open spec fn key_framed_matches(data: ConfigValue, ct: CurveTrack) -> bool {
    match data {
        ConfigValue::Record(fields) => {
            &&& prop_of(fields@) == Option::Some(ct.property)
            &&& ct.offset == 0
            &&& ct.duration as int == duration_of(fields@)
            &&& ct.loop_type == loop_of(fields@)
            &&& ct.curve_time == curve_time_of(fields@)
            &&& match field_of(fields@, "keys"@) {
                Option::Some(ConfigValue::List(items)) => ct.curve matches
                    AnimCurve::LinearKeyFrame(keys) && keys_match(items@, keys@),
                _ => false,
            }
        },
        _ => false,
    }
}

/// First error of a `fixed_value` block.
pub open spec fn fixed_value_err(data: ConfigValue) -> Option<BuildError> {
    match data {
        ConfigValue::Record(fields) => if prop_err(fields@) is Some {
            prop_err(fields@)
        } else {
            match field_of(fields@, "value"@) {
                Option::None => Option::Some(BuildError::MissingField(FieldName::Value)),
                Option::Some(v) => match channels_of_value(v) {
                    Option::None => Option::Some(BuildError::WrongFieldShape(FieldName::Value)),
                    Option::Some(vs) => if !channels_in_range(vs) {
                        Option::Some(BuildError::ValueOutOfRange)
                    } else {
                        Option::None
                    },
                },
            }
        },
        _ => Option::Some(BuildError::WrongFieldShape(FieldName::Config)),
    }
}

/// The track a valid `fixed_value` block builds.
pub open spec fn fixed_value_matches(data: ConfigValue, ct: CurveTrack) -> bool {
    match data {
        ConfigValue::Record(fields) => {
            &&& prop_of(fields@) == Option::Some(ct.property)
            &&& ct.offset == 0
            &&& ct.loop_type == Loop::Forever
            &&& ct.duration == WEEK_MS
            &&& ct.curve_time == CurveTime::Absolute
            &&& match field_of(fields@, "value"@) {
                Option::Some(v) => match channels_of_value(v) {
                    Option::Some(vs) => ct.curve matches AnimCurve::FixedValue(a) && a@ == vs,
                    Option::None => false,
                },
                Option::None => false,
            }
        },
        _ => false,
    }
}

/// First error among a list of nested track configurations from `j` on.
pub open spec fn track_list_err(items: Seq<ConfigValue>, j: int, reg: Registry) -> Option<
    BuildError,
>
    decreases items, items.len() - j,
{
    if j >= items.len() || j < 0 {
        Option::None
    } else {
        match build_err(items[j], reg) {
            Option::Some(e) => Option::Some(e),
            Option::None => track_list_err(items, j + 1, reg),
        }
    }
}

pub open spec fn track_list_matches(
    items: Seq<ConfigValue>,
    nodes: Seq<TrackNode>,
    reg: Registry,
) -> bool
    decreases items, 0int,
{
    &&& nodes.len() == items.len()
    &&& forall|q: int| 0 <= q < items.len() ==> built_matches(#[trigger] items[q], nodes[q],
        reg)
}

/// First error among a list of `(weight, track)` pairs from `j` on.
pub open spec fn weighted_list_err(items: Seq<ConfigValue>, j: int, reg: Registry) -> Option<
    BuildError,
>
    decreases items, items.len() - j,
{
    if j >= items.len() || j < 0 {
        Option::None
    } else {
        match items[j] {
            ConfigValue::List(pair) => if pair@.len() != 2 {
                Option::Some(BuildError::WrongFieldShape(FieldName::WeightedItem))
            } else if !(pair@[0] is Number) {
                Option::Some(BuildError::WrongFieldShape(FieldName::WeightedItem))
            } else if !(0 < num_of(pair@[0]) <= MAX_WEIGHT) {
                Option::Some(BuildError::InvalidWeight)
            } else {
                match build_err(pair@[1], reg) {
                    Option::Some(e) => Option::Some(e),
                    Option::None => weighted_list_err(items, j + 1, reg),
                }
            },
            _ => Option::Some(BuildError::WrongFieldShape(FieldName::WeightedItem)),
        }
    }
}

pub open spec fn weighted_list_matches(
    items: Seq<ConfigValue>,
    wts: Seq<(i64, TrackNode)>,
    reg: Registry,
) -> bool
    decreases items, 0int,
{
    &&& wts.len() == items.len()
    &&& forall|q: int| 0 <= q < items.len() ==> match #[trigger] items[q] {
        ConfigValue::List(pair) => pair@.len() == 2 && wts[q].0 as int == num_of(pair@[0])
            && built_matches(pair@[1], wts[q].1, reg),
        _ => false,
    }
}

/// First error of a whole track configuration: the tag must be recognized
/// and its block valid.
pub open spec fn build_err(cfg: ConfigValue, reg: Registry) -> Option<BuildError>
    decreases cfg, 0int,
{
    match cfg {
        ConfigValue::Tagged(tag, data) => if tag@ == "key_framed"@ {
            key_framed_err(*data)
        } else if tag@ == "fixed_value"@ {
            fixed_value_err(*data)
        } else if tag@ == "track_set"@ {
            match *data {
                ConfigValue::List(items) => track_list_err(items@, 0, reg),
                _ => Option::Some(BuildError::WrongFieldShape(FieldName::Config)),
            }
        } else if tag@ == "weighted_tracks"@ {
            match *data {
                ConfigValue::List(items) => weighted_list_err(items@, 0, reg),
                _ => Option::Some(BuildError::WrongFieldShape(FieldName::Config)),
            }
        } else if tag@ == "track_set_from_resource"@ {
            match *data {
                ConfigValue::Text(id) => if reg_lookup(reg.entries@, id@) is None {
                    Option::Some(BuildError::UnknownResource(id))
                } else {
                    Option::None
                },
                _ => Option::Some(BuildError::WrongFieldShape(FieldName::Config)),
            }
        } else {
            Option::Some(BuildError::UnrecognizedType(tag))
        },
        _ => Option::Some(BuildError::NotATrackConfig),
    }
}

/// The track a valid configuration builds, variant by variant.
pub open spec fn built_matches(cfg: ConfigValue, node: TrackNode, reg: Registry) -> bool
    decreases cfg, 0int,
{
    match cfg {
        ConfigValue::Tagged(tag, data) => if tag@ == "key_framed"@ {
            node matches TrackNode::Curve(ct) && key_framed_matches(*data, ct)
        } else if tag@ == "fixed_value"@ {
            node matches TrackNode::Curve(ct) && fixed_value_matches(*data, ct)
        } else if tag@ == "track_set"@ {
            match *data {
                ConfigValue::List(items) => node matches TrackNode::TrackSet(s)
                    && track_list_matches(items@, s.tracks@, reg),
                _ => false,
            }
        } else if tag@ == "weighted_tracks"@ {
            match *data {
                ConfigValue::List(items) => node matches TrackNode::Weighted(w)
                    && weighted_list_matches(items@, w.tracks@, reg),
                _ => false,
            }
        } else if tag@ == "track_set_from_resource"@ {
            match *data {
                ConfigValue::Text(id) => node matches TrackNode::FromResource(f) && (reg_lookup(
                    reg.entries@, id@) matches Some(s) && f.resource == s),
                _ => false,
            }
        } else {
            false
        },
        _ => false,
    }
}

/// First error among scalar keyframe configurations from index `j` on:
/// as for composite keys, but every key must carry exactly one channel.
pub open spec fn scalar_keys_err_from(items: Seq<ConfigValue>, j: int) -> Option<BuildError>
    decreases items.len() - j,
{
    if j >= items.len() || j < 0 {
        Option::None
    } else {
        match key_of(items[j]) {
            Option::None => Option::Some(BuildError::MalformedKey),
            Option::Some(tv) => if tv.1.len() != 1 {
                Option::Some(BuildError::MalformedKey)
            } else if !(-MAX_COORD <= tv.0 <= MAX_COORD) || !channels_in_range(tv.1) {
                Option::Some(BuildError::ValueOutOfRange)
            } else if j > 0 && tv.0 <= parsed_time(items, j - 1) {
                Option::Some(BuildError::NonAscendingKeys)
            } else {
                scalar_keys_err_from(items, j + 1)
            },
        }
    }
}

/// The parsed scalar keyframes agree with the configuration list.
pub open spec fn scalar_keys_match(items: Seq<ConfigValue>, keys: Seq<Key>) -> bool {
    &&& keys.len() == items.len()
    &&& forall|q: int| 0 <= q < keys.len() ==> key_of(items[q]) == Option::Some(
        ((#[trigger] keys[q]).time as int, seq![keys[q].value as int]))
}

/// First error of a scalar `key_framed` block.
pub open spec fn scalar_key_framed_err(data: ConfigValue) -> Option<BuildError> {
    match data {
        ConfigValue::Record(fields) => if prop_err(fields@) is Some {
            prop_err(fields@)
        } else if duration_err(fields@) is Some {
            duration_err(fields@)
        } else if loop_err(fields@) is Some {
            loop_err(fields@)
        } else if curve_time_err(fields@) is Some {
            curve_time_err(fields@)
        } else {
            match field_of(fields@, "keys"@) {
                Option::None => Option::Some(BuildError::MissingField(FieldName::Keys)),
                Option::Some(v) => match v {
                    ConfigValue::List(items) => if items@.len() == 0 {
                        Option::Some(BuildError::EmptyKeys)
                    } else {
                        scalar_keys_err_from(items@, 0)
                    },
                    _ => Option::Some(BuildError::WrongFieldShape(FieldName::Keys)),
                },
            }
        },
        _ => Option::Some(BuildError::WrongFieldShape(FieldName::Config)),
    }
}

/// The animation a valid scalar `key_framed` block builds.
pub open spec fn scalar_key_framed_matches(data: ConfigValue, a: Animation) -> bool {
    match data {
        ConfigValue::Record(fields) => {
            &&& prop_of(fields@) == Option::Some(a.property)
            &&& a.offset == 0
            &&& a.duration as int == duration_of(fields@)
            &&& a.loop_type == loop_of(fields@)
            &&& a.curve_time == curve_time_of(fields@)
            &&& match field_of(fields@, "keys"@) {
                Option::Some(ConfigValue::List(items)) => a.curve matches
                    ScalarCurve::LinearKeyFrame(keys) && scalar_keys_match(items@, keys@),
                _ => false,
            }
        },
        _ => false,
    }
}

/// First error of a scalar `fixed_value` block.
pub open spec fn scalar_fixed_value_err(data: ConfigValue) -> Option<BuildError> {
    match data {
        ConfigValue::Record(fields) => if prop_err(fields@) is Some {
            prop_err(fields@)
        } else {
            match field_of(fields@, "value"@) {
                Option::None => Option::Some(BuildError::MissingField(FieldName::Value)),
                Option::Some(v) => match channels_of_value(v) {
                    Option::None => Option::Some(BuildError::WrongFieldShape(FieldName::Value)),
                    Option::Some(vs) => if vs.len() != 1 {
                        Option::Some(BuildError::WrongFieldShape(FieldName::Value))
                    } else if !channels_in_range(vs) {
                        Option::Some(BuildError::ValueOutOfRange)
                    } else {
                        Option::None
                    },
                },
            }
        },
        _ => Option::Some(BuildError::WrongFieldShape(FieldName::Config)),
    }
}

/// The animation a valid scalar `fixed_value` block builds.
pub open spec fn scalar_fixed_value_matches(data: ConfigValue, a: Animation) -> bool {
    match data {
        ConfigValue::Record(fields) => {
            &&& prop_of(fields@) == Option::Some(a.property)
            &&& a.offset == 0
            &&& a.loop_type == Loop::Forever
            &&& a.duration == WEEK_MS
            &&& a.curve_time == CurveTime::Absolute
            &&& match field_of(fields@, "value"@) {
                Option::Some(v) => match channels_of_value(v) {
                    Option::Some(vs) => a.curve matches ScalarCurve::FixedValue(x) && vs
                        =~= seq![x as int],
                    Option::None => false,
                },
                Option::None => false,
            }
        },
        _ => false,
    }
}

/// First error of a whole scalar animation configuration.
pub open spec fn animation_err(cfg: ConfigValue) -> Option<BuildError> {
    match cfg {
        ConfigValue::Tagged(tag, data) => if tag@ == "key_framed"@ {
            scalar_key_framed_err(*data)
        } else if tag@ == "fixed_value"@ {
            scalar_fixed_value_err(*data)
        } else {
            Option::Some(BuildError::UnrecognizedType(tag))
        },
        _ => Option::Some(BuildError::NotATrackConfig),
    }
}

/// The animation a valid configuration builds.
pub open spec fn animation_matches(cfg: ConfigValue, a: Animation) -> bool {
    match cfg {
        ConfigValue::Tagged(tag, data) => if tag@ == "key_framed"@ {
            scalar_key_framed_matches(*data, a)
        } else if tag@ == "fixed_value"@ {
            scalar_fixed_value_matches(*data, a)
        } else {
            false
        },
        _ => false,
    }
}

/// Parse and validate a whole scalar keyframe list.
fn parse_scalar_keys(items: &Vec<ConfigValue>) -> (r: Result<Vec<Key>, BuildError>)
    requires
        items@.len() > 0,
    ensures
        (r is Err) == (scalar_keys_err_from(items@, 0) is Some),
        r matches Err(e) ==> scalar_keys_err_from(items@, 0) == Option::Some(e),
        r matches Ok(keys) ==> scalar_keys_wf(keys@) && scalar_keys_match(items@, keys@),
{
    let len: usize = items.len();
    let mut keys: Vec<Key> = Vec::new();
    let mut j: usize = 0;
    while j < len
        invariant
            len == items@.len(),
            0 < len,
            0 <= j <= len,
            keys@.len() == j,
            forall|q: int| 0 <= q < j ==> key_of(items@[q]) == Option::Some(
                ((#[trigger] keys@[q]).time as int, seq![keys@[q].value as int])),
            forall|q: int| 0 <= q < j ==> -MAX_COORD <= (#[trigger] keys@[q]).time <= MAX_COORD
                && -MAX_COORD <= keys@[q].value <= MAX_COORD,
            forall|a: int, b: int| 0 <= a < b < j ==> keys@[a].time < keys@[b].time,
            scalar_keys_err_from(items@, 0) == scalar_keys_err_from(items@, j as int),
        decreases len - j,
    {
        let key: AnimKey = match parse_key(&items[j]) {
            Option::Some(k) => k,
            Option::None => {
                proof {
                    assert(scalar_keys_err_from(items@, j as int) == Option::Some(
                        BuildError::MalformedKey));
                }
                return Err(BuildError::MalformedKey);
            },
        };
        if key.value.value.len() != 1 {
            proof {
                assert(scalar_keys_err_from(items@, j as int) == Option::Some(
                    BuildError::MalformedKey));
            }
            return Err(BuildError::MalformedKey);
        }
        let kv: i64 = key.value.value[0];
        proof {
            assert(key.value@ =~= seq![kv as int]);
        }
        if key.time < -MAX_COORD || key.time > MAX_COORD || kv < -MAX_COORD || kv > MAX_COORD {
            proof {
                if -MAX_COORD <= key.time <= MAX_COORD {
                    assert(!channels_in_range(key.value@)) by {
                        assert(!(-MAX_COORD <= key.value@[0] <= MAX_COORD));
                    }
                }
                assert(scalar_keys_err_from(items@, j as int) == Option::Some(
                    BuildError::ValueOutOfRange));
            }
            return Err(BuildError::ValueOutOfRange);
        }
        if j > 0 {
            let prev: i64 = keys[j - 1].time;
            if key.time <= prev {
                proof {
                    assert(keys@[j as int - 1].time as int == parsed_time(items@, j as int
                        - 1));
                    assert(scalar_keys_err_from(items@, j as int) == Option::Some(
                        BuildError::NonAscendingKeys));
                }
                return Err(BuildError::NonAscendingKeys);
            }
        }
        proof {
            assert(channels_in_range(key.value@));
            assert(scalar_keys_err_from(items@, j as int) == scalar_keys_err_from(items@,
                j as int + 1));
        }
        keys.push(Key { time: key.time, value: kv });
        j += 1;
    }
    proof {
        assert(scalar_keys_err_from(items@, len as int) is None);
        assert(times_strictly_sorted(scalar_times(keys@)));
    }
    Ok(keys)
}

impl Animation {
    /// Translate one tagged configuration block into a scalar animation;
    /// only single-channel values are accepted here.
    pub fn from_config(cfg: &ConfigValue) -> (r: Result<Animation, BuildError>)
        ensures
            (r is Err) == (animation_err(*cfg) is Some),
            r matches Err(e) ==> animation_err(*cfg) == Option::Some(e),
            r matches Ok(a) ==> a.wf() && animation_matches(*cfg, a),
    {
        let (tag, data) = match cfg {
            ConfigValue::Tagged(tag, data) => (tag, data),
            _ => {
                return Err(BuildError::NotATrackConfig);
            },
        };
        if text_is(tag, "key_framed") {
            let fields = match &**data {
                ConfigValue::Record(fields) => fields,
                _ => {
                    return Err(BuildError::WrongFieldShape(FieldName::Config));
                },
            };
            let property: NamedPropRef = match get_field(fields, "property") {
                Option::Some(ConfigValue::PropRef(p)) => p.clone(),
                Option::Some(_) => {
                    return Err(BuildError::WrongFieldShape(FieldName::Property));
                },
                Option::None => {
                    return Err(BuildError::MissingField(FieldName::Property));
                },
            };
            let duration: i64 = match get_field(fields, "duration") {
                Option::None => 1000,
                Option::Some(ConfigValue::Number(d)) => {
                    let dv: i64 = *d;
                    if dv <= 0 {
                        return Err(BuildError::NonPositiveDuration);
                    }
                    if dv > MAX_TIME_MS {
                        return Err(BuildError::ValueOutOfRange);
                    }
                    dv
                },
                Option::Some(_) => {
                    return Err(BuildError::WrongFieldShape(FieldName::Duration));
                },
            };
            let loop_type: Loop = match get_field(fields, "loop") {
                Option::None => Loop::Once,
                Option::Some(ConfigValue::Text(s)) => {
                    if text_is(s, "forever") {
                        Loop::Forever
                    } else if text_is(s, "once") {
                        Loop::Once
                    } else {
                        return Err(BuildError::InvalidLoopValue);
                    }
                },
                Option::Some(_) => {
                    return Err(BuildError::WrongFieldShape(FieldName::Looping));
                },
            };
            let curve_time: CurveTime = match get_field(fields, "curve_time") {
                Option::None => CurveTime::Absolute,
                Option::Some(ConfigValue::Text(s)) => {
                    if text_is(s, "absolute") {
                        CurveTime::Absolute
                    } else if text_is(s, "relative") {
                        CurveTime::Relative
                    } else {
                        return Err(BuildError::InvalidCurveTimeValue);
                    }
                },
                Option::Some(_) => {
                    return Err(BuildError::WrongFieldShape(FieldName::CurveTiming));
                },
            };
            let keys: Vec<Key> = match get_field(fields, "keys") {
                Option::None => {
                    return Err(BuildError::MissingField(FieldName::Keys));
                },
                Option::Some(ConfigValue::List(items)) => {
                    if items.len() == 0 {
                        return Err(BuildError::EmptyKeys);
                    }
                    match parse_scalar_keys(items) {
                        Ok(keys) => keys,
                        Err(e) => {
                            return Err(e);
                        },
                    }
                },
                Option::Some(_) => {
                    return Err(BuildError::WrongFieldShape(FieldName::Keys));
                },
            };
            Ok(Animation {
                curve: ScalarCurve::LinearKeyFrame(keys),
                offset: 0,
                property,
                loop_type,
                duration,
                curve_time,
            })
        } else if text_is(tag, "fixed_value") {
            let fields = match &**data {
                ConfigValue::Record(fields) => fields,
                _ => {
                    return Err(BuildError::WrongFieldShape(FieldName::Config));
                },
            };
            let property: NamedPropRef = match get_field(fields, "property") {
                Option::Some(ConfigValue::PropRef(p)) => p.clone(),
                Option::Some(_) => {
                    return Err(BuildError::WrongFieldShape(FieldName::Property));
                },
                Option::None => {
                    return Err(BuildError::MissingField(FieldName::Property));
                },
            };
            let vfield: &ConfigValue = match get_field(fields, "value") {
                Option::None => {
                    return Err(BuildError::MissingField(FieldName::Value));
                },
                Option::Some(v) => v,
            };
            let out: Vec<i64> = match parse_channels(vfield) {
                Option::Some(out) => out,
                Option::None => {
                    return Err(BuildError::WrongFieldShape(FieldName::Value));
                },
            };
            if out.len() != 1 {
                return Err(BuildError::WrongFieldShape(FieldName::Value));
            }
            let x: i64 = out[0];
            proof {
                match channels_of_value(*vfield) {
                    Option::Some(vs) => {
                        assert(vs =~= seq![x as int]);
                    },
                    Option::None => {
                        assert(false);
                    },
                }
            }
            if x < -MAX_COORD || x > MAX_COORD {
                proof {
                    match channels_of_value(*vfield) {
                        Option::Some(vs) => {
                            assert(!channels_in_range(vs)) by {
                                assert(!(-MAX_COORD <= vs[0] <= MAX_COORD));
                            }
                        },
                        Option::None => {
                            assert(false);
                        },
                    }
                }
                return Err(BuildError::ValueOutOfRange);
            }
            Ok(Animation::new_fixed_value(property, x))
        } else {
            Err(BuildError::UnrecognizedType(tag.clone()))
        }
    }
}

/// Build a leaf track from a `key_framed` block.
fn build_key_framed(data: &ConfigValue) -> (r: Result<CurveTrack, BuildError>)
    ensures
        (r is Err) == (key_framed_err(*data) is Some),
        r matches Err(e) ==> key_framed_err(*data) == Option::Some(e),
        r matches Ok(ct) ==> ct.wf() && key_framed_matches(*data, ct),
{
    let fields = match data {
        ConfigValue::Record(fields) => fields,
        _ => {
            return Err(BuildError::WrongFieldShape(FieldName::Config));
        },
    };
    let property: NamedPropRef = match get_field(fields, "property") {
        Option::Some(ConfigValue::PropRef(p)) => p.clone(),
        Option::Some(_) => {
            return Err(BuildError::WrongFieldShape(FieldName::Property));
        },
        Option::None => {
            return Err(BuildError::MissingField(FieldName::Property));
        },
    };
    let duration: i64 = match get_field(fields, "duration") {
        Option::None => 1000,
        Option::Some(ConfigValue::Number(d)) => {
            let dv: i64 = *d;
            if dv <= 0 {
                return Err(BuildError::NonPositiveDuration);
            }
            if dv > MAX_TIME_MS {
                return Err(BuildError::ValueOutOfRange);
            }
            dv
        },
        Option::Some(_) => {
            return Err(BuildError::WrongFieldShape(FieldName::Duration));
        },
    };
    let loop_type: Loop = match get_field(fields, "loop") {
        Option::None => Loop::Once,
        Option::Some(ConfigValue::Text(s)) => {
            if text_is(s, "forever") {
                Loop::Forever
            } else if text_is(s, "once") {
                Loop::Once
            } else {
                return Err(BuildError::InvalidLoopValue);
            }
        },
        Option::Some(_) => {
            return Err(BuildError::WrongFieldShape(FieldName::Looping));
        },
    };
    let curve_time: CurveTime = match get_field(fields, "curve_time") {
        Option::None => CurveTime::Absolute,
        Option::Some(ConfigValue::Text(s)) => {
            if text_is(s, "absolute") {
                CurveTime::Absolute
            } else if text_is(s, "relative") {
                CurveTime::Relative
            } else {
                return Err(BuildError::InvalidCurveTimeValue);
            }
        },
        Option::Some(_) => {
            return Err(BuildError::WrongFieldShape(FieldName::CurveTiming));
        },
    };
    let keys: Vec<AnimKey> = match get_field(fields, "keys") {
        Option::None => {
            return Err(BuildError::MissingField(FieldName::Keys));
        },
        Option::Some(ConfigValue::List(items)) => {
            if items.len() == 0 {
                return Err(BuildError::EmptyKeys);
            }
            match parse_keys(items) {
                Ok(keys) => keys,
                Err(e) => {
                    return Err(e);
                },
            }
        },
        Option::Some(_) => {
            return Err(BuildError::WrongFieldShape(FieldName::Keys));
        },
    };
    proof {
        assert(anim_keys_wf(keys@));
        assert(prop_of(fields@) == Option::Some(property));
        assert(duration_of(fields@) == duration as int);
        assert(loop_of(fields@) == loop_type);
        assert(curve_time_of(fields@) == curve_time);
        assert(key_framed_err(*data) is None);
    }
    Ok(CurveTrack {
        curve: AnimCurve::LinearKeyFrame(keys),
        offset: 0,
        property,
        loop_type,
        duration,
        curve_time,
    })
}

/// Build a leaf track from a `fixed_value` block.
#[verifier::loop_isolation(false)]
fn build_fixed_value(data: &ConfigValue) -> (r: Result<CurveTrack, BuildError>)
    ensures
        (r is Err) == (fixed_value_err(*data) is Some),
        r matches Err(e) ==> fixed_value_err(*data) == Option::Some(e),
        r matches Ok(ct) ==> ct.wf() && fixed_value_matches(*data, ct),
{
    let fields = match data {
        ConfigValue::Record(fields) => fields,
        _ => {
            return Err(BuildError::WrongFieldShape(FieldName::Config));
        },
    };
    let property: NamedPropRef = match get_field(fields, "property") {
        Option::Some(ConfigValue::PropRef(p)) => p.clone(),
        Option::Some(_) => {
            return Err(BuildError::WrongFieldShape(FieldName::Property));
        },
        Option::None => {
            return Err(BuildError::MissingField(FieldName::Property));
        },
    };
    let vfield: &ConfigValue = match get_field(fields, "value") {
        Option::None => {
            return Err(BuildError::MissingField(FieldName::Value));
        },
        Option::Some(v) => v,
    };
    let out: Vec<i64> = match parse_channels(vfield) {
        Option::Some(out) => out,
        Option::None => {
            return Err(BuildError::WrongFieldShape(FieldName::Value));
        },
    };
    let nch: usize = out.len();
    let mut c: usize = 0;
    while c < nch
        invariant
            nch == out@.len(),
            0 <= c <= nch,
            forall|q: int| 0 <= q < c ==> -MAX_COORD <= #[trigger] out@[q] <= MAX_COORD,
        decreases nch - c,
    {
        let x: i64 = out[c];
        if x < -MAX_COORD || x > MAX_COORD {
            proof {
                assert(!(-MAX_COORD <= out@[c as int] <= MAX_COORD));
            }
            return Err(BuildError::ValueOutOfRange);
        }
        c += 1;
    }
    let value = Animatable { value: out };
    proof {
        match channels_of_value(*vfield) {
            Option::Some(vs) => {
                assert(value@ =~= vs);
                assert(channels_in_range(value@));
            },
            Option::None => {
                assert(false);
            },
        }
    }
    Ok(CurveTrack::new_fixed_value(property, value))
}

/// Build every nested track of a `track_set` block.
fn build_track_list(items: &Vec<ConfigValue>, registry: &Registry) -> (r: Result<
    Vec<TrackNode>,
    BuildError,
>)
    requires
        registry_wf(*registry),
    ensures
        (r is Err) == (track_list_err(items@, 0, *registry) is Some),
        r matches Err(e) ==> track_list_err(items@, 0, *registry) == Option::Some(e),
        r matches Ok(v) ==> list_wf(v@) && track_list_matches(items@, v@, *registry),
    decreases *items, 0int,
{
    let len: usize = items.len();
    let mut out: Vec<TrackNode> = Vec::new();
    let mut j: usize = 0;
    while j < len
        invariant
            registry_wf(*registry),
            len == items@.len(),
            0 <= j <= len,
            out@.len() == j,
            forall|q: int| 0 <= q < j ==> node_wf(#[trigger] out@[q]),
            forall|q: int| 0 <= q < j ==> built_matches(#[trigger] items@[q], out@[q],
                *registry),
            track_list_err(items@, 0, *registry) == track_list_err(items@, j as int,
                *registry),
        decreases len - j,
    {
        match from_config(&items[j], registry) {
            Ok(node) => {
                let ghost gnode = node;
                out.push(node);
                proof {
                    assert(out@[j as int] == gnode);
                }
            },
            Err(e) => {
                return Err(e);
            },
        }
        j += 1;
    }
    Ok(out)
}

/// Build every weighted sub-track of a `weighted_tracks` block.
fn build_weighted_list(items: &Vec<ConfigValue>, registry: &Registry) -> (r: Result<
    Vec<(i64, TrackNode)>,
    BuildError,
>)
    requires
        registry_wf(*registry),
    ensures
        (r is Err) == (weighted_list_err(items@, 0, *registry) is Some),
        r matches Err(e) ==> weighted_list_err(items@, 0, *registry) == Option::Some(e),
        r matches Ok(v) ==> weighted_list_wf(v@) && weighted_list_matches(items@, v@,
            *registry),
    decreases *items, 0int,
{
    let len: usize = items.len();
    let mut out: Vec<(i64, TrackNode)> = Vec::new();
    let mut j: usize = 0;
    while j < len
        invariant
            registry_wf(*registry),
            len == items@.len(),
            0 <= j <= len,
            out@.len() == j,
            forall|q: int| 0 <= q < j ==> node_wf((#[trigger] out@[q]).1) && 0 < out@[q].0
                <= MAX_WEIGHT,
            forall|q: int| 0 <= q < j ==> match #[trigger] items@[q] {
                ConfigValue::List(pair) => pair@.len() == 2 && out@[q].0 as int == num_of(
                    pair@[0]) && built_matches(pair@[1], out@[q].1, *registry),
                _ => false,
            },
            weighted_list_err(items@, 0, *registry) == weighted_list_err(items@, j as int,
                *registry),
        decreases len - j,
    {
        match &items[j] {
            ConfigValue::List(pair) => {
                if pair.len() != 2 {
                    return Err(BuildError::WrongFieldShape(FieldName::WeightedItem));
                }
                let weight: i64 = match &pair[0] {
                    ConfigValue::Number(x) => *x,
                    _ => {
                        return Err(BuildError::WrongFieldShape(FieldName::WeightedItem));
                    },
                };
                if weight <= 0 || weight > MAX_WEIGHT {
                    return Err(BuildError::InvalidWeight);
                }
                match from_config(&pair[1], registry) {
                    Ok(node) => {
                        let ghost gnode = node;
                        out.push((weight, node));
                        proof {
                            assert(out@[j as int] == (weight, gnode));
                        }
                    },
                    Err(e) => {
                        return Err(e);
                    },
                }
            },
            _ => {
                return Err(BuildError::WrongFieldShape(FieldName::WeightedItem));
            },
        }
        j += 1;
    }
    Ok(out)
}

/// Translate one tagged configuration block into a track, validating
/// everything a track's well-formedness needs; an invalid configuration
/// yields the structured error its first offending part deserves.
pub fn from_config(cfg: &ConfigValue, registry: &Registry) -> (r: Result<TrackNode, BuildError>)
    requires
        registry_wf(*registry),
    ensures
        (r is Err) == (build_err(*cfg, *registry) is Some),
        r matches Err(e) ==> build_err(*cfg, *registry) == Option::Some(e),
        r matches Ok(n) ==> node_wf(n) && built_matches(*cfg, n, *registry),
    decreases *cfg, 1int,
{
    match cfg {
        ConfigValue::Tagged(tag, data) => {
            if text_is(tag, "key_framed") {
                match build_key_framed(data) {
                    Ok(ct) => Ok(TrackNode::Curve(ct)),
                    Err(e) => Err(e),
                }
            } else if text_is(tag, "fixed_value") {
                match build_fixed_value(data) {
                    Ok(ct) => Ok(TrackNode::Curve(ct)),
                    Err(e) => Err(e),
                }
            } else if text_is(tag, "track_set") {
                match &**data {
                    ConfigValue::List(items) => match build_track_list(items, registry) {
                        Ok(v) => Ok(TrackNode::TrackSet(TrackSet { tracks: v })),
                        Err(e) => Err(e),
                    },
                    _ => Err(BuildError::WrongFieldShape(FieldName::Config)),
                }
            } else if text_is(tag, "weighted_tracks") {
                match &**data {
                    ConfigValue::List(items) => match build_weighted_list(items, registry) {
                        Ok(v) => Ok(TrackNode::Weighted(WeightedTracks { tracks: v })),
                        Err(e) => Err(e),
                    },
                    _ => Err(BuildError::WrongFieldShape(FieldName::Config)),
                }
            } else if text_is(tag, "track_set_from_resource") {
                match &**data {
                    ConfigValue::Text(id) => match registry.lookup(id) {
                        Option::Some(rc) => {
                            proof {
                                lemma_reg_index(registry.entries@, id@);
                                let k = reg_index(registry.entries@, id@);
                                assert(list_wf(registry.entries@[k].1.tracks@));
                            }
                            Ok(TrackNode::FromResource(TrackSetFromResource { resource: rc }))
                        },
                        Option::None => Err(BuildError::UnknownResource(id.clone())),
                    },
                    _ => Err(BuildError::WrongFieldShape(FieldName::Config)),
                }
            } else {
                Err(BuildError::UnrecognizedType(tag.clone()))
            }
        },
        _ => Err(BuildError::NotATrackConfig),
    }
}

} // verus!
