//! Weighted blending of sub-tracks: outputs naming the same property are
//! combined by weight-normalized interpolation instead of being
//! concatenated.
//!
//! Blending folds over the sub-tracks' outputs in declaration order.  The
//! first output for a property starts its entry; every further output for
//! the same property with the same channel count is folded in as a
//! weight-normalized average (an interpolation of the entry so far toward
//! the new value by its share of the accumulated weight); an output whose
//! channel count differs is dropped.  Result order is the order of first
//! occurrence of each property.

use vstd::prelude::*;
use vstd::arithmetic::div_mod::{lemma_div_is_ordered, lemma_div_multiples_vanish,
    lemma_div_pos_is_pos};
use crate::animatable::{Animatable, NamedPropRef, PropRefView};
use crate::curves::MAX_COORD;
use crate::timing::{div_trunc, MAX_TIME_MS};
use crate::track::{node_model_at, node_wf, outputs_bounded, outputs_match, Track, TrackNode};

verus! {

/// Upper bound on a sub-track's weight (2^20; weights are fixed-point
/// thousandths, so roughly a thousand).
pub const MAX_WEIGHT: i64 = 1048576;

/// An ordered list of weighted sub-tracks.
#[derive(Debug)]
pub struct WeightedTracks {
    pub tracks: Vec<(i64, TrackNode)>,
}

/// Every sub-track is well formed and every weight is positive and
/// bounded.
pub open spec fn weighted_list_wf(ts: Seq<(i64, TrackNode)>) -> bool
    decreases ts,
{
    forall|i: int| 0 <= i < ts.len() ==> node_wf((#[trigger] ts[i]).1) && 0 < ts[i].0
        <= MAX_WEIGHT
}

/// Attach one weight to every output pair.
pub open spec fn tag_weight(m: Seq<(PropRefView, Seq<int>)>, w: int) -> Seq<
    (PropRefView, Seq<int>, int),
> {
    Seq::new(m.len(), |i: int| (m[i].0, m[i].1, w))
}

/// All sub-track outputs in declaration order, each tagged with its
/// sub-track's weight.
pub open spec fn weighted_entries(ts: Seq<(i64, TrackNode)>, elapsed: int) -> Seq<
    (PropRefView, Seq<int>, int),
>
    decreases ts,
{
    if ts.len() == 0 {
        Seq::empty()
    } else {
        weighted_entries(ts.drop_last(), elapsed) + tag_weight(node_model_at(ts.last().1,
            elapsed), ts.last().0 as int)
    }
}

/// First index holding property `p`, or -1.
pub open spec fn index_of_prop(acc: Seq<(PropRefView, Seq<int>, int)>, p: PropRefView) -> int
    decreases acc.len(),
{
    if acc.len() == 0 {
        -1
    } else if acc[0].0 == p {
        0
    } else {
        let r = index_of_prop(acc.drop_first(), p);
        if r < 0 {
            -1
        } else {
            r + 1
        }
    }
}

pub proof fn lemma_index_of_prop(acc: Seq<(PropRefView, Seq<int>, int)>, p: PropRefView)
    ensures
        -1 <= index_of_prop(acc, p) < acc.len(),
        index_of_prop(acc, p) >= 0 ==> acc[index_of_prop(acc, p)].0 == p,
        index_of_prop(acc, p) >= 0 ==> forall|j: int| 0 <= j < index_of_prop(acc, p)
            ==> (#[trigger] acc[j]).0 != p,
        index_of_prop(acc, p) < 0 ==> forall|j: int| 0 <= j < acc.len()
            ==> (#[trigger] acc[j]).0 != p,
    decreases acc.len(),
{
    if acc.len() == 0 {
    } else if acc[0].0 == p {
    } else {
        lemma_index_of_prop(acc.drop_first(), p);
        assert(forall|j: int| 1 <= j < acc.len() ==> #[trigger] acc[j]
            == acc.drop_first()[j - 1]);
    }
}

/// Weight-normalized average of an accumulated value and a new value,
/// channel by channel, truncating toward zero.
pub open spec fn merge_channels(v0: Seq<int>, w0: int, v1: Seq<int>, w1: int) -> Seq<int>
    recommends
        w0 + w1 > 0,
{
    Seq::new(v0.len(), |c: int| div_trunc(v0[c] * w0 + v1[c] * w1, w0 + w1))
}

/// Fold one tagged output into the blend state.
pub open spec fn blend_push(
    acc: Seq<(PropRefView, Seq<int>, int)>,
    e: (PropRefView, Seq<int>, int),
) -> Seq<(PropRefView, Seq<int>, int)> {
    let k = index_of_prop(acc, e.0);
    if k < 0 {
        acc.push(e)
    } else if acc[k].1.len() == e.1.len() {
        acc.update(k, (e.0, merge_channels(acc[k].1, acc[k].2, e.1, e.2), acc[k].2 + e.2))
    } else {
        acc
    }
}

/// Blend state after folding the first `i` entries.
pub open spec fn blend_fold(entries: Seq<(PropRefView, Seq<int>, int)>, i: int) -> Seq<
    (PropRefView, Seq<int>, int),
>
    decreases i,
{
    if i <= 0 {
        Seq::empty()
    } else {
        blend_push(blend_fold(entries, i - 1), entries[i - 1])
    }
}

/// The blended outputs: the final blend state with weights dropped.
pub open spec fn blend_result(entries: Seq<(PropRefView, Seq<int>, int)>) -> Seq<
    (PropRefView, Seq<int>),
> {
    let acc = blend_fold(entries, entries.len() as int);
    Seq::new(acc.len(), |i: int| (acc[i].0, acc[i].1))
}

/// Abstract form of gathered executable entries.
pub open spec fn entries_model(r: Seq<(NamedPropRef, Animatable, i64)>) -> Seq<
    (PropRefView, Seq<int>, int),
> {
    Seq::new(r.len(), |i: int| (r[i].0@, r[i].1@, r[i].2 as int))
}

pub proof fn lemma_entries_model_push(
    r: Seq<(NamedPropRef, Animatable, i64)>,
    x: (NamedPropRef, Animatable, i64),
)
    ensures
        entries_model(r.push(x)) == entries_model(r).push((x.0@, x.1@, x.2 as int)),
{
    assert(entries_model(r.push(x)) =~= entries_model(r).push((x.0@, x.1@, x.2 as int)));
}

/// Evaluate every weighted sub-track and tag its outputs with its weight.
fn collect_entries(tracks: &Vec<(i64, TrackNode)>, elapsed: i64) -> (r: Vec<
    (NamedPropRef, Animatable, i64),
>)
    requires
        weighted_list_wf(tracks@),
        -MAX_TIME_MS <= elapsed <= MAX_TIME_MS,
    ensures
        entries_model(r@) == weighted_entries(tracks@, elapsed as int),
        forall|i: int| 0 <= i < r@.len() ==> 0 < (#[trigger] r@[i]).2 <= MAX_WEIGHT,
        forall|i: int, c: int| 0 <= i < r@.len() && 0 <= c < r@[i].1@.len()
            ==> -MAX_COORD <= #[trigger] r@[i].1@[c] <= MAX_COORD,
    decreases *tracks,
{
    let mut out: Vec<(NamedPropRef, Animatable, i64)> = Vec::new();
    let len: usize = tracks.len();
    let mut i: usize = 0;
    while i < len
        invariant
            weighted_list_wf(tracks@),
            -MAX_TIME_MS <= elapsed <= MAX_TIME_MS,
            len == tracks@.len(),
            0 <= i <= len,
            entries_model(out@) == weighted_entries(tracks@.take(i as int), elapsed as int),
            forall|j: int| 0 <= j < out@.len() ==> 0 < (#[trigger] out@[j]).2 <= MAX_WEIGHT,
            forall|j: int, c: int| 0 <= j < out@.len() && 0 <= c < out@[j].1@.len()
                ==> -MAX_COORD <= #[trigger] out@[j].1@[c] <= MAX_COORD,
        decreases len - i,
    {
        let w: i64 = tracks[i].0;
        let sub = tracks[i].1.eval(elapsed);
        let ghost subm = node_model_at(tracks@[i as int].1, elapsed as int);
        let ghost base = weighted_entries(tracks@.take(i as int), elapsed as int);
        let slen: usize = sub.len();
        let mut j: usize = 0;
        while j < slen
            invariant
                slen == sub@.len(),
                0 <= j <= slen,
                outputs_match(sub@, subm),
                outputs_bounded(sub@),
                0 < w <= MAX_WEIGHT,
                entries_model(out@) =~= base + tag_weight(subm, w as int).take(j as int),
                forall|q: int| 0 <= q < out@.len() ==> 0 < (#[trigger] out@[q]).2 <= MAX_WEIGHT,
                forall|q: int, c: int| 0 <= q < out@.len() && 0 <= c < out@[q].1@.len()
                    ==> -MAX_COORD <= #[trigger] out@[q].1@[c] <= MAX_COORD,
            decreases slen - j,
        {
            let entry: (NamedPropRef, Animatable, i64) = (sub[j].0.clone(), sub[j].1.clone(),
                w);
            let ghost old_out = out@;
            proof {
                let tagged = tag_weight(subm, w as int);
                lemma_entries_model_push(out@, entry);
                assert((entry.0@, entry.1@, entry.2 as int) == tagged[j as int]);
                assert(tagged.take(j as int + 1) =~= tagged.take(j as int).push(
                    tagged[j as int]));
                assert(base + tagged.take(j as int).push(tagged[j as int]) =~= (base
                    + tagged.take(j as int)).push(tagged[j as int]));
            }
            out.push(entry);
            proof {
                assert(entries_model(out@) =~= base + tag_weight(subm, w as int).take(
                    j as int + 1));
            }
            j += 1;
        }
        proof {
            let pre = tracks@.take(i as int);
            let post = tracks@.take(i as int + 1);
            assert(post.drop_last() =~= pre);
            assert(post.last() == tracks@[i as int]);
            let tagged = tag_weight(subm, w as int);
            assert(tagged.take(slen as int) =~= tagged);
            assert(entries_model(out@) =~= weighted_entries(post, elapsed as int));
        }
        i += 1;
    }
    proof {
        assert(tracks@.take(len as int) =~= tracks@);
    }
    out
}

/// Fold the gathered entries into blended outputs.
fn blend_entries(entries: Vec<(NamedPropRef, Animatable, i64)>) -> (r: Vec<
    (NamedPropRef, Animatable),
>)
    requires
        forall|i: int| 0 <= i < entries@.len() ==> 0 < (#[trigger] entries@[i]).2 <= MAX_WEIGHT,
        forall|i: int, c: int| 0 <= i < entries@.len() && 0 <= c < entries@[i].1@.len()
            ==> -MAX_COORD <= #[trigger] entries@[i].1@[c] <= MAX_COORD,
    ensures
        outputs_match(r@, blend_result(entries_model(entries@))),
        outputs_bounded(r@),
{
    let ghost m = entries_model(entries@);
    let n: usize = entries.len();
    let mut out: Vec<(NamedPropRef, Animatable)> = Vec::new();
    let mut acc_w: Vec<i128> = Vec::new();
    let mut i: usize = 0;
    while i < n
        invariant
            n == entries@.len(),
            m == entries_model(entries@),
            forall|q: int| 0 <= q < entries@.len() ==> 0 < (#[trigger] entries@[q]).2
                <= MAX_WEIGHT,
            forall|q: int, c: int| 0 <= q < entries@.len() && 0 <= c < entries@[q].1@.len()
                ==> -MAX_COORD <= #[trigger] entries@[q].1@[c] <= MAX_COORD,
            0 <= i <= n,
            out@.len() == acc_w@.len(),
            out@.len() == blend_fold(m, i as int).len(),
            forall|k: int| 0 <= k < out@.len() ==> (#[trigger] out@[k]).0@
                == blend_fold(m, i as int)[k].0 && out@[k].1@ == blend_fold(m, i as int)[k].1,
            forall|k: int| 0 <= k < acc_w@.len() ==> #[trigger] acc_w@[k] as int
                == blend_fold(m, i as int)[k].2,
            forall|k: int| 0 <= k < acc_w@.len() ==> 0 < #[trigger] acc_w@[k]
                <= (i as int) * (MAX_WEIGHT as int),
            outputs_bounded(out@),
        decreases n - i,
    {
        let ghost acc = blend_fold(m, i as int);
        let ghost p = m[i as int].0;
        let olen: usize = out.len();
        let mut k: usize = 0;
        while k < olen && !(out[k].0 == entries[i].0)
            invariant
                olen == out@.len(),
                0 <= k <= olen,
                i < n == entries@.len(),
                forall|j: int| 0 <= j < k ==> (#[trigger] out@[j]).0@ != entries@[i as int].0@,
            decreases olen - k,
        {
            k += 1;
        }
        proof {
            lemma_index_of_prop(acc, p);
        }
        if k == olen {
            let entry: (NamedPropRef, Animatable) = (entries[i].0.clone(), entries[i].1.clone());
            let w: i64 = entries[i].2;
            let ghost e0 = entry.0@;
            let ghost e1 = entry.1@;
            let ghost old_out = out@;
            proof {
                assert(index_of_prop(acc, p) < 0) by {
                    let r0 = index_of_prop(acc, p);
                    if r0 >= 0 {
                        assert(out@[r0].0@ != entries@[i as int].0@);
                        assert(out@[r0].0@ == acc[r0].0);
                    }
                }
                assert(blend_fold(m, i as int + 1) == acc.push(m[i as int]));
                assert(e0 == m[i as int].0);
                assert(e1 == m[i as int].1);
            }
            out.push(entry);
            acc_w.push(w as i128);
            proof {
                let acc2 = blend_fold(m, i as int + 1);
                assert forall|kk: int| 0 <= kk < out@.len() implies (#[trigger] out@[kk]).0@
                    == acc2[kk].0 && out@[kk].1@ == acc2[kk].1 by {
                    if kk < old_out.len() {
                        assert(out@[kk] == old_out[kk]);
                    } else {
                        assert(out@[kk].0@ == e0);
                        assert(out@[kk].1@ == e1);
                    }
                }
            }
        } else {
            proof {
                assert(acc[k as int].0 == p);
                assert(index_of_prop(acc, p) == k as int) by {
                    let r0 = index_of_prop(acc, p);
                    if r0 < 0 {
                        assert(acc[k as int].0 != p);
                    } else if r0 < k as int {
                        assert(out@[r0].0@ != p);
                    } else if (k as int) < r0 {
                        assert(acc[k as int].0 != p);
                    }
                }
            }
            let w_new: i64 = entries[i].2;
            let nc_old: usize = out[k].1.value.len();
            let nc_new: usize = entries[i].1.value.len();
            if nc_old == nc_new {
                let w_old: i128 = acc_w[k];
                let den: i128 = w_old + (w_new as i128);
                let mut merged: Vec<i64> = Vec::new();
                let mut c: usize = 0;
                proof {
                    assert((i as int) * (MAX_WEIGHT as int)
                        <= 19342813113834066795298816) by (nonlinear_arith)
                        requires
                            0 <= i as int <= 18446744073709551615,
                    ;
                }
                while c < nc_old
                    invariant
                        0 <= c <= nc_old,
                        olen == out@.len(),
                        0 <= (k as int) < out@.len(),
                        i < n == entries@.len(),
                        nc_old == out@[k as int].1@.len(),
                        nc_old == entries@[i as int].1@.len(),
                        outputs_bounded(out@),
                        forall|q: int, cc: int| 0 <= q < entries@.len() && 0 <= cc
                            < entries@[q].1@.len() ==> -MAX_COORD
                            <= #[trigger] entries@[q].1@[cc] <= MAX_COORD,
                        0 < w_old <= 19342813113834066795298816,
                        0 < w_new <= MAX_WEIGHT,
                        den == w_old + w_new,
                        merged@.len() == c,
                        forall|j: int| 0 <= j < c ==> #[trigger] merged@[j] as int == div_trunc(
                            out@[k as int].1@[j] * (w_old as int) + entries@[i as int].1@[j] * (
                            w_new as int), w_old as int + w_new as int),
                        forall|j: int| 0 <= j < c ==> -MAX_COORD <= #[trigger] merged@[j]
                            <= MAX_COORD,
                    decreases nc_old - c,
                {
                    let a: i64 = out[k].1.value[c];
                    let b: i64 = entries[i].1.value[c];
                    proof {
                        assert(-MAX_COORD <= out@[k as int].1@[c as int] <= MAX_COORD);
                        assert(-MAX_COORD <= entries@[i as int].1@[c as int] <= MAX_COORD);
                    }
                    proof {
                        let ai: int = a as int;
                        let bi: int = b as int;
                        let w0: int = w_old as int;
                        let w1: int = w_new as int;
                        assert((-(1099511627776 * 19342813113834066795298816) <= ai * w0 <= (
                        1099511627776 * 19342813113834066795298816)) && (-(1099511627776
                            * 1048576) <= bi * w1 <= (1099511627776 * 1048576)) && (-((w0 + w1)
                            * 1099511627776) <= ai * w0 + bi * w1 <= ((w0 + w1)
                            * 1099511627776)) && ((w0 + w1) * 1099511627776
                            < 170141183460469231731687303715884105727)) by (nonlinear_arith)
                            requires
                                -1099511627776 <= ai <= 1099511627776,
                                -1099511627776 <= bi <= 1099511627776,
                                0 < w0 <= 19342813113834066795298816,
                                0 < w1 <= 1048576,
                        ;
                    }
                    let num: i128 = (a as i128) * w_old + (b as i128) * (w_new as i128);
                    let q: i128 = if num >= 0 {
                        let qq: u128 = (num as u128) / (den as u128);
                        proof {
                            lemma_div_is_ordered(num as int, (den as int) * (MAX_COORD as int),
                                den as int);
                            lemma_div_multiples_vanish(MAX_COORD as int, den as int);
                            lemma_div_pos_is_pos(num as int, den as int);
                        }
                        qq as i128
                    } else {
                        let neg: i128 = -num;
                        let qq: u128 = (neg as u128) / (den as u128);
                        proof {
                            lemma_div_is_ordered(neg as int, (den as int) * (MAX_COORD as int),
                                den as int);
                            lemma_div_multiples_vanish(MAX_COORD as int, den as int);
                            lemma_div_pos_is_pos(neg as int, den as int);
                        }
                        -(qq as i128)
                    };
                    merged.push(q as i64);
                    c += 1;
                }
                let entry: (NamedPropRef, Animatable) = (out[k].0.clone(), Animatable {
                    value: merged });
                let ghost e0 = entry.0@;
                let ghost e1 = entry.1@;
                let ghost old_out = out@;
                proof {
                    assert(e1 =~= merge_channels(acc[k as int].1, acc[k as int].2,
                        m[i as int].1, m[i as int].2));
                    assert(e0 == p);
                    assert(blend_fold(m, i as int + 1) == acc.update(k as int, (m[i as int].0,
                        merge_channels(acc[k as int].1, acc[k as int].2, m[i as int].1,
                        m[i as int].2), acc[k as int].2 + m[i as int].2)));
                }
                out[k] = entry;
                acc_w[k] = den;
                proof {
                    let acc2 = blend_fold(m, i as int + 1);
                    assert forall|kk: int| 0 <= kk < out@.len() implies (#[trigger] out@[kk]).0@
                        == acc2[kk].0 && out@[kk].1@ == acc2[kk].1 by {
                        if kk != k as int {
                            assert(out@[kk] == old_out[kk]);
                        } else {
                            assert(out@[kk].0@ == e0);
                            assert(out@[kk].1@ == e1);
                        }
                    }
                }
            } else {
                proof {
                    assert(acc[k as int].1.len() != m[i as int].1.len());
                    assert(blend_fold(m, i as int + 1) == acc);
                }
            }
        }
        i += 1;
    }
    proof {
        let acc = blend_fold(m, n as int);
        let res = blend_result(m);
        assert(res.len() == acc.len());
        assert(forall|k: int| 0 <= k < res.len() ==> (#[trigger] res[k]).0 == acc[k].0
            && res[k].1 == acc[k].1);
    }
    out
}

/// Evaluate a weighted track list: evaluate every sub-track, then blend.
pub fn eval_weighted(w: &WeightedTracks, elapsed: i64) -> (r: Vec<(NamedPropRef, Animatable)>)
    requires
        weighted_list_wf(w.tracks@),
        -MAX_TIME_MS <= elapsed <= MAX_TIME_MS,
    ensures
        outputs_match(r@, blend_result(weighted_entries(w.tracks@, elapsed as int))),
        outputs_bounded(r@),
    decreases *w,
{
    let entries = collect_entries(&w.tracks, elapsed);
    blend_entries(entries)
}

impl Track for WeightedTracks {
    open spec fn track_wf(&self) -> bool {
        weighted_list_wf(self.tracks@)
    }

    open spec fn track_model(&self, elapsed: int) -> Seq<(PropRefView, Seq<int>)> {
        blend_result(weighted_entries(self.tracks@, elapsed))
    }

    fn value_at(&self, elapsed: i64) -> (r: Vec<(NamedPropRef, Animatable)>) {
        eval_weighted(self, elapsed)
    }
}

} // verus!
