//! Evaluation engine for time-varying property values: keyframe curves,
//! fixed values, and composite tracks, all driven by an elapsed playback
//! time given in whole milliseconds.
//!
//! Scalar quantities (key times, key values, weights) are fixed-point
//! numbers in thousandths, so a key time of one second is written `1000`
//! and a value of one half is written `500`.  Evaluation is exact integer
//! arithmetic; division truncates toward zero.

pub mod animatable;
pub mod animation;
pub mod config;
pub mod curve_track;
pub mod curves;
pub mod timing;
pub mod track;
pub mod track_set;
pub mod weighted_tracks;
