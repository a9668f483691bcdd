//! An ordered set of sub-tracks, evaluated as the concatenation of its
//! members' outputs in declaration order.

use vstd::prelude::*;
use crate::animatable::{Animatable, NamedPropRef, PropRefView};
use crate::track::{eval_track_list, list_model_at, list_wf, node_model_at, outputs_match,
    outputs_bounded, Track, TrackNode};

verus! {

/// An ordered list of sub-tracks.
#[derive(Debug)]
pub struct TrackSet {
    pub tracks: Vec<TrackNode>,
}

impl Track for TrackSet {
    open spec fn track_wf(&self) -> bool {
        list_wf(self.tracks@)
    }

    open spec fn track_model(&self, elapsed: int) -> Seq<(PropRefView, Seq<int>)> {
        list_model_at(self.tracks@, elapsed)
    }

    fn value_at(&self, elapsed: i64) -> (r: Vec<(NamedPropRef, Animatable)>) {
        eval_track_list(&self.tracks, elapsed)
    }
}

/// A set of two sub-tracks produces the first sub-track's entries
/// followed by the second's: declaration order is preserved.
pub proof fn lemma_pair_set_order(s: TrackSet, elapsed: int)
    ensures
        s.tracks@.len() == 2 ==> list_model_at(s.tracks@, elapsed) == node_model_at(
            s.tracks@[0], elapsed) + node_model_at(s.tracks@[1], elapsed),
{
    if s.tracks@.len() == 2 {
        let ts = s.tracks@;
        let one = ts.drop_last();
        assert(one.len() == 1);
        assert(one.drop_last() =~= Seq::<TrackNode>::empty());
        assert(one.last() == ts[0]);
        assert(ts.last() == ts[1]);
        assert(list_model_at(one.drop_last(), elapsed) =~= Seq::<(PropRefView, Seq<int>)>::empty());
        assert(list_model_at(one, elapsed) =~= node_model_at(ts[0], elapsed));
        assert(list_model_at(ts, elapsed) =~= node_model_at(ts[0], elapsed) + node_model_at(
            ts[1], elapsed));
    }
}

} // verus!
