//! The track capability: "evaluate at a time, produce property/value
//! pairs" — and the closed set of variants implementing it.

use std::rc::Rc;
use vstd::prelude::*;
use crate::animatable::{Animatable, NamedPropRef, PropRefView};
use crate::curves::MAX_COORD;
use crate::curve_track::CurveTrack;
use crate::timing::MAX_TIME_MS;
use crate::track_set::TrackSet;
use crate::weighted_tracks::{blend_result, eval_weighted, weighted_entries, weighted_list_wf,
    WeightedTracks};

verus! {

/// Evaluation results agree, pair by pair, with an abstract model: same
/// length, same properties, same channel values.
pub open spec fn outputs_match(
    r: Seq<(NamedPropRef, Animatable)>,
    m: Seq<(PropRefView, Seq<int>)>,
) -> bool {
    &&& r.len() == m.len()
    &&& forall|i: int| 0 <= i < r.len() ==> (#[trigger] r[i]).0@ == m[i].0 && r[i].1@ == m[i].1
}

/// Every channel of every produced value stays within the coordinate
/// range.
pub open spec fn outputs_bounded(r: Seq<(NamedPropRef, Animatable)>) -> bool {
    forall|i: int, c: int| 0 <= i < r.len() && 0 <= c < r[i].1@.len()
        ==> -MAX_COORD <= #[trigger] r[i].1@[c] <= MAX_COORD
}

pub proof fn lemma_outputs_match_concat(
    r1: Seq<(NamedPropRef, Animatable)>,
    r2: Seq<(NamedPropRef, Animatable)>,
    m1: Seq<(PropRefView, Seq<int>)>,
    m2: Seq<(PropRefView, Seq<int>)>,
)
    requires
        outputs_match(r1, m1),
        outputs_match(r2, m2),
    ensures
        outputs_match(r1 + r2, m1 + m2),
{
    assert forall|i: int| 0 <= i < (r1 + r2).len() implies ((#[trigger] (r1 + r2)[i]).0@ == (m1
        + m2)[i].0 && (r1 + r2)[i].1@ == (m1 + m2)[i].1) by {
        if i < r1.len() {
            assert((r1 + r2)[i] == r1[i]);
        } else {
            assert((r1 + r2)[i] == r2[i - r1.len()]);
        }
    }
}

/// The unifying evaluation capability: every track variant produces, for
/// an elapsed time, an ordered sequence of property/value pairs that
/// matches its model.
pub trait Track {
    spec fn track_wf(&self) -> bool;

    spec fn track_model(&self, elapsed: int) -> Seq<(PropRefView, Seq<int>)>;

    fn value_at(&self, elapsed: i64) -> (r: Vec<(NamedPropRef, Animatable)>)
        requires
            self.track_wf(),
            -MAX_TIME_MS <= elapsed <= MAX_TIME_MS,
        ensures
            outputs_match(r@, self.track_model(elapsed as int)),
            outputs_bounded(r@),
    ;
}

/// A reference to a shared, externally owned track set resource;
/// evaluation delegates to the referenced set verbatim.  Several wrappers
/// may share one resource, which lives as long as the longest holder.
#[derive(Debug)]
pub struct TrackSetFromResource {
    pub resource: Rc<TrackSet>,
}

/// The closed set of track variants, dispatched exhaustively.
#[derive(Debug)]
pub enum TrackNode {
    Curve(CurveTrack),
    TrackSet(TrackSet),
    Weighted(WeightedTracks),
    FromResource(TrackSetFromResource),
}

pub open spec fn node_wf(n: TrackNode) -> bool
    decreases n,
{
    match n {
        TrackNode::Curve(ct) => ct.wf(),
        TrackNode::TrackSet(s) => list_wf(s.tracks@),
        TrackNode::Weighted(w) => weighted_list_wf(w.tracks@),
        TrackNode::FromResource(f) => list_wf(f.resource.tracks@),
    }
}

pub open spec fn list_wf(ts: Seq<TrackNode>) -> bool
    decreases ts,
{
    forall|i: int| 0 <= i < ts.len() ==> node_wf(#[trigger] ts[i])
}

/// What a track variant produces at an elapsed time.
pub open spec fn node_model_at(n: TrackNode, elapsed: int) -> Seq<(PropRefView, Seq<int>)>
    decreases n,
{
    match n {
        TrackNode::Curve(ct) => ct.model_at(elapsed),
        TrackNode::TrackSet(s) => list_model_at(s.tracks@, elapsed),
        TrackNode::Weighted(w) => blend_result(weighted_entries(w.tracks@, elapsed)),
        TrackNode::FromResource(f) => list_model_at(f.resource.tracks@, elapsed),
    }
}

/// A list of tracks produces the concatenation of its members' outputs,
/// in declaration order.
pub open spec fn list_model_at(ts: Seq<TrackNode>, elapsed: int) -> Seq<(PropRefView, Seq<int>)>
    decreases ts,
{
    if ts.len() == 0 {
        Seq::empty()
    } else {
        list_model_at(ts.drop_last(), elapsed) + node_model_at(ts.last(), elapsed)
    }
}

/// Evaluate every track of a list and concatenate the outputs in order.
pub fn eval_track_list(tracks: &Vec<TrackNode>, elapsed: i64) -> (r: Vec<
    (NamedPropRef, Animatable),
>)
    requires
        list_wf(tracks@),
        -MAX_TIME_MS <= elapsed <= MAX_TIME_MS,
    ensures
        outputs_match(r@, list_model_at(tracks@, elapsed as int)),
        outputs_bounded(r@),
    decreases *tracks,
{
    let mut out: Vec<(NamedPropRef, Animatable)> = Vec::new();
    let len: usize = tracks.len();
    let mut i: usize = 0;
    while i < len
        invariant
            list_wf(tracks@),
            -MAX_TIME_MS <= elapsed <= MAX_TIME_MS,
            len == tracks@.len(),
            0 <= i <= len,
            outputs_match(out@, list_model_at(tracks@.take(i as int), elapsed as int)),
            outputs_bounded(out@),
        decreases len - i,
    {
        let mut sub = tracks[i].eval(elapsed);
        proof {
            let pre = tracks@.take(i as int);
            let post = tracks@.take(i as int + 1);
            assert(post.drop_last() =~= pre);
            assert(post.last() == tracks@[i as int]);
            lemma_outputs_match_concat(out@, sub@, list_model_at(pre, elapsed as int),
                node_model_at(tracks@[i as int], elapsed as int));
        }
        out.append(&mut sub);
        i += 1;
    }
    proof {
        assert(tracks@.take(len as int) =~= tracks@);
    }
    out
}

impl TrackNode {
    /// Evaluate this track variant at an elapsed time in milliseconds.
    pub fn eval(&self, elapsed: i64) -> (r: Vec<(NamedPropRef, Animatable)>)
        requires
            node_wf(*self),
            -MAX_TIME_MS <= elapsed <= MAX_TIME_MS,
        ensures
            outputs_match(r@, node_model_at(*self, elapsed as int)),
            outputs_bounded(r@),
        decreases *self,
    {
        match self {
            TrackNode::Curve(ct) => ct.value_at(elapsed),
            TrackNode::TrackSet(s) => eval_track_list(&s.tracks, elapsed),
            TrackNode::Weighted(w) => eval_weighted(w, elapsed),
            TrackNode::FromResource(f) => eval_track_list(&f.resource.tracks, elapsed),
        }
    }
}

impl Track for TrackNode {
    open spec fn track_wf(&self) -> bool {
        node_wf(*self)
    }

    open spec fn track_model(&self, elapsed: int) -> Seq<(PropRefView, Seq<int>)> {
        node_model_at(*self, elapsed)
    }

    fn value_at(&self, elapsed: i64) -> (r: Vec<(NamedPropRef, Animatable)>) {
        self.eval(elapsed)
    }
}

impl Track for TrackSetFromResource {
    open spec fn track_wf(&self) -> bool {
        list_wf(self.resource.tracks@)
    }

    open spec fn track_model(&self, elapsed: int) -> Seq<(PropRefView, Seq<int>)> {
        list_model_at(self.resource.tracks@, elapsed)
    }

    fn value_at(&self, elapsed: i64) -> (r: Vec<(NamedPropRef, Animatable)>) {
        eval_track_list(&self.resource.tracks, elapsed)
    }
}

} // verus!
