//! The window resolver: from a time range in milliseconds to the access
//! units that fall in it.

use vstd::prelude::*;
use vstd::slice::slice_subrange;
use crate::manifest::{
    lemma_last_segment_starts_inside, segment_at, segment_count, FRAME_CADENCE_MS,
};

verus! {

/// Index of the first access unit of a window, held to the sequence's end.
pub open spec fn window_start(len: nat, offset_ms: nat) -> nat {
    if offset_ms / FRAME_CADENCE_MS as nat <= len {
        offset_ms / FRAME_CADENCE_MS as nat
    } else {
        len
    }
}

/// Index behind the last access unit of a window, held to the sequence's end.
pub open spec fn window_end(len: nat, offset_ms: nat, length_ms: nat) -> nat {
    if window_start(len, offset_ms) + length_ms / FRAME_CADENCE_MS as nat <= len {
        window_start(len, offset_ms) + length_ms / FRAME_CADENCE_MS as nat
    } else {
        len
    }
}

/// Number of access units in a window: as many as the length asks for, or
/// as many as are left behind the offset, whichever is fewer.
pub open spec fn window_len(len: nat, offset_ms: nat, length_ms: nat) -> nat {
    let asked = length_ms / FRAME_CADENCE_MS as nat;
    let left = len - offset_ms / FRAME_CADENCE_MS as nat;
    if left < 0 {
        0
    } else if asked <= left {
        asked
    } else {
        left as nat
    }
}

/// The access units of `sequence` that lie in the window of `length_ms`
/// milliseconds from `offset_ms`. A window that reaches beyond the end is
/// cut there; one that starts beyond it is empty.
pub fn resolve<'a, T>(sequence: &'a [T], offset_ms: usize, length_ms: usize) -> (window: &'a [T])
    ensures
        window@ == sequence@.subrange(
            window_start(sequence@.len(), offset_ms as nat) as int,
            window_end(sequence@.len(), offset_ms as nat, length_ms as nat) as int,
        ),
        window@.len() == window_len(sequence@.len(), offset_ms as nat, length_ms as nat),
{
    let len = sequence.len();
    let offset_frames = offset_ms / FRAME_CADENCE_MS;
    let frames = length_ms / FRAME_CADENCE_MS;
    let start = if offset_frames <= len {
        offset_frames
    } else {
        len
    };
    let end = if frames <= len - start {
        start + frames
    } else {
        len
    };
    slice_subrange(sequence, start, end)
}

/// The windows of the segments of a manifest follow each other without gap
/// or overlap, from the first access unit to the last, and each holds as
/// many access units as its advertised duration divided by the cadence.
pub proof fn lemma_segments_tile(len: usize, target: usize, i: int)
    requires
        len * FRAME_CADENCE_MS <= usize::MAX,
        0 <= i < segment_count(len as nat, target as nat),
    ensures
        ({
            let segment = segment_at(len as nat, target as nat, i);
            let before = segment_at(len as nat, target as nat, i - 1);
            let start = window_start(len as nat, segment.offset_ms as nat);
            let end = window_end(len as nat, segment.offset_ms as nat, segment.length_ms as nat);
            &&& i == 0 ==> start == 0
            &&& i > 0 ==> start == window_end(
                len as nat,
                before.offset_ms as nat,
                before.length_ms as nat,
            )
            &&& i + 1 == segment_count(len as nat, target as nat) ==> end == len
            &&& (end - start) * FRAME_CADENCE_MS == segment.length_ms
        }),
{
    let count = segment_count(len as nat, target as nat);
    lemma_last_segment_starts_inside(len as nat, target as nat);
    if target > 0 && target % FRAME_CADENCE_MS == 0 {
        let k = target as int / 50;
        assert(i * target == 50 * (i * k) && (i - 1) * target == 50 * ((i - 1) * k) && (i + 1)
            * target == 50 * ((i + 1) * k) && (i + 1) * k == i * k + k && (i - 1) * k + k == i * k)
            by (nonlinear_arith)
            requires
                target == 50 * k,
        ;
        assert(i * target <= (count - 1) * target) by (nonlinear_arith)
            requires
                i <= count - 1,
                target > 0,
        ;
        if i + 1 < count {
            assert((i + 1) * target <= (count - 1) * target) by (nonlinear_arith)
                requires
                    i + 1 <= count - 1,
                    target > 0,
            ;
        }
        if i > 0 {
            assert(0 <= (i - 1) * target) by (nonlinear_arith)
                requires
                    i >= 1,
                    target > 0,
            ;
        }
    } else if target == 0 {
        assert(i * target == 0 && (i - 1) * target == 0) by (nonlinear_arith)
            requires
                target == 0,
        ;
    } else {
        assert(i * target == 0) by (nonlinear_arith)
            requires
                i == 0,
        ;
    }
}

} // verus!
