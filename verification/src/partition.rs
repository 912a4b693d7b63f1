//! How the index space is dealt out to workers.
//!
//! Worker `id` of `count` visits `id`, `id + count`, `id + 2 * count`, and so
//! on. The lemmas below show that these tracks cover every index exactly
//! once.

use vstd::prelude::*;
use vstd::arithmetic::div_mod::{
    lemma_fundamental_div_mod, lemma_fundamental_div_mod_converse, lemma_mod_bound,
};

verus! {

/// The index that a worker starting at `start` reaches after `step` strides.
pub open spec fn visit(start: int, stride: int, step: int) -> int {
    start + step * stride
}

/// Whether `index` lies on the track that starts at `start` and advances by
/// `stride`.
pub open spec fn on_track(start: int, stride: int, index: int) -> bool {
    index >= start && (index - start) % stride == 0
}

/// Every index that a worker reaches lies on its track.
pub proof fn lemma_visit_on_track(start: int, stride: int, step: int)
    requires
        stride >= 1,
        step >= 0,
    ensures
        on_track(start, stride, visit(start, stride, step)),
{
    assert(step * stride >= 0) by (nonlinear_arith)
        requires
            step >= 0,
            stride >= 1,
    ;
    lemma_fundamental_div_mod_converse(step * stride, stride, step, 0);
}

/// Every index on a track is reached, after `(index - start) / stride` strides.
pub proof fn lemma_track_is_visited(start: int, stride: int, index: int)
    requires
        stride >= 1,
        on_track(start, stride, index),
    ensures
        (index - start) / stride >= 0,
        visit(start, stride, (index - start) / stride) == index,
{
    let d = index - start;
    lemma_fundamental_div_mod(d, stride);
    assert(d / stride >= 0 && (d / stride) * stride == d) by (nonlinear_arith)
        requires
            d == stride * (d / stride) + 0,
            d >= 0,
            stride >= 1,
    ;
}

/// A track has no index strictly between one of its indices and the next.
pub proof fn lemma_track_gap(start: int, stride: int, a: int, b: int)
    requires
        stride >= 1,
        on_track(start, stride, a),
        on_track(start, stride, b),
        a <= b < a + stride,
    ensures
        a == b,
{
    lemma_track_is_visited(start, stride, a);
    lemma_track_is_visited(start, stride, b);
    let ka = (a - start) / stride;
    let kb = (b - start) / stride;
    assert(ka == kb) by (nonlinear_arith)
        requires
            stride >= 1,
            0 <= (start + kb * stride) - (start + ka * stride) < stride,
    ;
}

/// The index after one more stride is on the track again.
pub proof fn lemma_track_next(start: int, stride: int, index: int)
    requires
        stride >= 1,
        on_track(start, stride, index),
    ensures
        on_track(start, stride, index + stride),
{
    lemma_track_is_visited(start, stride, index);
    let k = (index - start) / stride;
    assert((k + 1) * stride == k * stride + stride) by (nonlinear_arith);
    lemma_visit_on_track(start, stride, k + 1);
}

/// A track that is entered at one of its own indices goes on as the same track.
pub proof fn lemma_track_resumes(start: int, stride: int, from: int, index: int)
    requires
        stride >= 1,
        on_track(start, stride, from),
        index >= from,
    ensures
        on_track(from, stride, index) <==> on_track(start, stride, index),
{
    lemma_track_is_visited(start, stride, from);
    let kf = (from - start) / stride;
    if on_track(from, stride, index) {
        lemma_track_is_visited(from, stride, index);
        let k = (index - from) / stride;
        assert(index == start + (kf + k) * stride) by (nonlinear_arith)
            requires
                index == from + k * stride,
                from == start + kf * stride,
        ;
        lemma_visit_on_track(start, stride, kf + k);
    }
    if on_track(start, stride, index) {
        lemma_track_is_visited(start, stride, index);
        let ki = (index - start) / stride;
        assert(ki >= kf && index == from + (ki - kf) * stride) by (nonlinear_arith)
            requires
                index == start + ki * stride,
                from == start + kf * stride,
                index >= from,
                stride >= 1,
        ;
        lemma_visit_on_track(from, stride, ki - kf);
    }
}

/// No gaps: with `count` workers, index `index` lies on the track of worker
/// `index % count`, which reaches it after `index / count` strides.
pub proof fn lemma_every_index_is_covered(count: int, index: int)
    requires
        count >= 1,
        index >= 0,
    ensures
        0 <= index % count < count,
        index / count >= 0,
        visit(index % count, count, index / count) == index,
        on_track(index % count, count, index),
{
    lemma_mod_bound(index, count);
    lemma_fundamental_div_mod(index, count);
    let q = index / count;
    assert(q >= 0 && q * count == count * q) by (nonlinear_arith)
        requires
            index == count * q + index % count,
            index >= 0,
            0 <= index % count < count,
            count >= 1,
    ;
    lemma_visit_on_track(index % count, count, q);
}

/// No overlaps: an index lies on the track of one worker only, and that
/// worker reaches it once only.
pub proof fn lemma_tracks_are_disjoint(count: int, a: int, b: int, step_a: int, step_b: int)
    requires
        count >= 1,
        0 <= a < count,
        0 <= b < count,
        step_a >= 0,
        step_b >= 0,
        visit(a, count, step_a) == visit(b, count, step_b),
    ensures
        a == b,
        step_a == step_b,
{
    let index = visit(a, count, step_a);
    lemma_fundamental_div_mod_converse(index, count, step_a, a);
    lemma_fundamental_div_mod_converse(index, count, step_b, b);
}

/// An index on the track of a worker `id < count` has `id` as its remainder
/// by `count`: the tracks of distinct workers share no index.
pub proof fn lemma_track_owner(count: int, id: int, index: int)
    requires
        count >= 1,
        0 <= id < count,
        on_track(id, count, index),
    ensures
        index % count == id,
{
    lemma_track_is_visited(id, count, index);
    lemma_fundamental_div_mod_converse(index, count, (index - id) / count, id);
}

} // verus!
