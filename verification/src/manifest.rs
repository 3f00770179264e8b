//! The manifest: the full sequence of access units cut into segments of a
//! target duration, the last one holding what is left.

use vstd::prelude::*;

verus! {

/// Milliseconds between two consecutive access units.
pub const FRAME_CADENCE_MS: usize = 50;

/// Duration that the segments of a playlist aim at, in milliseconds.
pub const SEGMENT_TARGET_MS: usize = 5000;

/// Output format of a segment.
#[derive(Clone, Copy, Debug, PartialEq, Eq, Structural)]
pub enum VideoType {
    MpegTs,
    Mp4,
    Raw,
}

impl Default for VideoType {
    fn default() -> (r: VideoType)
        ensures
            r == VideoType::MpegTs,
    {
        VideoType::MpegTs
    }
}

/// A window of a stream, in milliseconds from its start, and the format in
/// which it is asked for.
#[derive(Clone, Copy, Debug, PartialEq, Eq, Structural)]
pub struct SegmentDescriptor {
    pub offset_ms: usize,
    pub length_ms: usize,
    pub video_type: VideoType,
}

/// One line of a manifest: a segment, or the marker that ends the list.
#[derive(Clone, Copy, Debug, PartialEq, Eq, Structural)]
pub enum ManifestEntry {
    Segment(SegmentDescriptor),
    EndOfList,
}

/// Number of segments for `len` access units. A target that is a multiple of
/// the cadence cuts the sequence into windows of that length. Any other
/// target is never met, and one segment holds everything; a target of zero
/// is met once, before the first access unit, by an empty segment.
pub open spec fn segment_count(len: nat, target: nat) -> nat {
    if len == 0 {
        0
    } else if target == 0 {
        2
    } else if target % FRAME_CADENCE_MS as nat != 0 {
        1
    } else {
        ((len * FRAME_CADENCE_MS + target - 1) / target as int) as nat
    }
}

/// Where segment `i` starts, in milliseconds: behind `i` targets.
pub open spec fn segment_offset(target: nat, i: int) -> int {
    i * target
}

/// How long segment `i` is, in milliseconds: as long as the target, unless
/// it is the last, which holds what is left.
pub open spec fn segment_length(len: nat, target: nat, i: int) -> int {
    if i + 1 < segment_count(len, target) {
        target as int
    } else {
        len * FRAME_CADENCE_MS - i * target
    }
}

/// The lengths of the first `n` segments, added up.
pub open spec fn lengths_sum(len: nat, target: nat, n: nat) -> int
    decreases n,
{
    if n == 0 {
        0
    } else {
        lengths_sum(len, target, (n - 1) as nat) + segment_length(len, target, n - 1)
    }
}

/// Segment `i` of the manifest: it starts where segment `i - 1` ends, and is
/// `target` long unless it is the last, which holds what is left.
pub open spec fn segment_at(len: nat, target: nat, i: int) -> SegmentDescriptor {
    SegmentDescriptor {
        offset_ms: segment_offset(target, i) as usize,
        length_ms: segment_length(len, target, i) as usize,
        video_type: VideoType::MpegTs,
    }
}

/// The manifest for `len` access units: the segments in order, then the end
/// marker.
pub open spec fn manifest(len: nat, target: nat) -> Seq<ManifestEntry> {
    Seq::new(
        segment_count(len, target),
        |i: int| ManifestEntry::Segment(segment_at(len, target, i)),
    ).push(ManifestEntry::EndOfList)
}

/// A length that lies behind `e` whole targets and within `e + 1` of them
/// takes `e + 1` segments.
proof fn lemma_count_from_bounds(e: nat, x: nat, target: nat)
    requires
        target > 0,
        e * target < x <= (e + 1) * target,
    ensures
        (x + target - 1) / target as int == e + 1,
{
    assert((x + target - 1) / target as int == e + 1) by (nonlinear_arith)
        requires
            target > 0,
            e * target < x <= (e + 1) * target,
    ;
}

/// Cuts a sequence of `len` access units into segments of `target_segment_ms`.
pub fn generate(len: usize, target_segment_ms: usize) -> (entries: Vec<ManifestEntry>)
    requires
        len * FRAME_CADENCE_MS <= usize::MAX,
    ensures
        entries@ == manifest(len as nat, target_segment_ms as nat),
{
    let mut entries: Vec<ManifestEntry> = Vec::new();
    let mut offset_ms: usize = 0;
    let mut length_ms: usize = 0;
    let ghost target = target_segment_ms as nat;
    let ghost mut emitted: nat = 0;
    let mut i: usize = 0;
    while i < len
        invariant
            i <= len,
            len * FRAME_CADENCE_MS <= usize::MAX,
            target == target_segment_ms,
            offset_ms == emitted * target,
            offset_ms + length_ms == i * FRAME_CADENCE_MS,
            length_ms % FRAME_CADENCE_MS == 0,
            i >= 1 ==> length_ms > 0,
            target > 0 && target % FRAME_CADENCE_MS as nat == 0 ==> length_ms <= target,
            target == 0 ==> emitted == (if i == 0 { 0nat } else { 1nat }),
            target % FRAME_CADENCE_MS as nat != 0 ==> emitted == 0,
            entries@ =~= Seq::new(
                emitted,
                |j: int|
                    ManifestEntry::Segment(
                        SegmentDescriptor {
                            offset_ms: (j * target) as usize,
                            length_ms: target as usize,
                            video_type: VideoType::MpegTs,
                        },
                    ),
            ),
        decreases len - i,
    {
        if length_ms == target_segment_ms {
            entries.push(
                ManifestEntry::Segment(
                    SegmentDescriptor { offset_ms, length_ms, video_type: VideoType::MpegTs },
                ),
            );
            offset_ms += length_ms;
            length_ms = 0;
            proof {
                assert((emitted + 1) * target == emitted * target + target) by (nonlinear_arith);
                emitted = emitted + 1;
            }
        }
        length_ms += FRAME_CADENCE_MS;
        i += 1;
    }
    if length_ms != 0 {
        entries.push(
            ManifestEntry::Segment(
                SegmentDescriptor { offset_ms, length_ms, video_type: VideoType::MpegTs },
            ),
        );
        proof {
            if target > 0 && target % FRAME_CADENCE_MS as nat == 0 {
                assert((emitted + 1) * target == emitted * target + target) by (nonlinear_arith);
                lemma_count_from_bounds(emitted, (len * FRAME_CADENCE_MS) as nat, target);
            }
        }
    } else {
        proof {
            if target > 0 {
                assert(emitted == 0) by (nonlinear_arith)
                    requires
                        emitted * target == 0,
                        target > 0,
                ;
            }
        }
    }
    entries.push(ManifestEntry::EndOfList);
    assert(entries@ =~= manifest(len as nat, target));
    entries
}

/// Milliseconds that the entries of a manifest advertise, taken together.
pub open spec fn total_length(entries: Seq<ManifestEntry>) -> nat
    decreases entries.len(),
{
    if entries.len() == 0 {
        0
    } else {
        total_length(entries.drop_last()) + match entries.last() {
            ManifestEntry::Segment(segment) => segment.length_ms as nat,
            ManifestEntry::EndOfList => 0,
        }
    }
}

/// The last segment starts before the end of the sequence.
pub proof fn lemma_last_segment_starts_inside(len: nat, target: nat)
    requires
        len > 0,
    ensures
        segment_count(len, target) >= 1,
        (segment_count(len, target) - 1) * target <= len * FRAME_CADENCE_MS,
        target > 0 ==> (segment_count(len, target) - 1) * target < len * FRAME_CADENCE_MS,
{
    let x = len * FRAME_CADENCE_MS;
    if target > 0 && target % FRAME_CADENCE_MS as nat == 0 {
        assert(((x + target - 1) / target as int - 1) * target < x && (x + target - 1) / target as int
            >= 1) by (nonlinear_arith)
            requires
                x > 0,
                target > 0,
        ;
    } else if target == 0 {
        assert(1 * target == 0) by (nonlinear_arith)
            requires
                target == 0,
        ;
    } else {
        assert(0 * target == 0) by (nonlinear_arith);
    }
}

/// The first `n` segments are `n` targets long, or as long as the whole
/// sequence where they are all of its segments.
proof fn lemma_lengths_sum(len: nat, target: nat, n: nat)
    requires
        n <= segment_count(len, target),
    ensures
        lengths_sum(len, target, n) == (if n < segment_count(len, target) {
            (n * target) as int
        } else {
            len * FRAME_CADENCE_MS
        }),
    decreases n,
{
    if n == 0 {
        assert(0 * target == 0) by (nonlinear_arith);
        if len > 0 {
            lemma_last_segment_starts_inside(len, target);
        }
    } else {
        lemma_lengths_sum(len, target, (n - 1) as nat);
        assert(n * target == (n - 1) * target + target) by (nonlinear_arith);
    }
}

/// Whatever the number of access units and the target: the segments follow
/// each other from the start without gap or overlap, every segment but the
/// last is as long as the target, and the lengths of all of them add up to
/// the duration of the full sequence. Where the target is a multiple of
/// the cadence, the last segment is not empty and no longer than the
/// target.
pub proof fn lemma_segments_cover(len: nat, target: nat)
    ensures
        lengths_sum(len, target, segment_count(len, target)) == len * FRAME_CADENCE_MS,
        forall|i: int|
            0 <= i && i + 1 < segment_count(len, target) ==> #[trigger] segment_length(
                len,
                target,
                i,
            ) == target,
        forall|i: int|
            0 <= i < segment_count(len, target) ==> #[trigger] segment_offset(target, i)
                == lengths_sum(len, target, i as nat),
        len > 0 && target > 0 && target % FRAME_CADENCE_MS as nat == 0 ==> 0 < segment_length(
            len,
            target,
            segment_count(len, target) - 1,
        ) <= target,
{
    let count = segment_count(len, target);
    lemma_lengths_sum(len, target, count);
    assert forall|i: int| 0 <= i < count implies #[trigger] segment_offset(target, i)
        == lengths_sum(len, target, i as nat) by {
        lemma_lengths_sum(len, target, i as nat);
    }
    if len > 0 && target > 0 && target % FRAME_CADENCE_MS as nat == 0 {
        lemma_last_segment_starts_inside(len, target);
        let x = len * FRAME_CADENCE_MS;
        assert(x <= ((x + target - 1) / target as int) * target) by (nonlinear_arith)
            requires
                x > 0,
                target > 0,
        ;
        assert(count * target == (count - 1) * target + target) by (nonlinear_arith);
    }
}

/// A playlist has a segment for every hundred access units, and one for
/// what is left of them.
pub proof fn lemma_playlist_segments(len: nat)
    ensures
        segment_count(len, SEGMENT_TARGET_MS as nat) == (len + 99) / 100,
{
}

/// The first `n` entries of a manifest advertise `n` targets, or the whole
/// sequence where they are all of its segments.
proof fn lemma_prefix_total(len: nat, target: nat, n: nat)
    requires
        len * FRAME_CADENCE_MS <= usize::MAX,
        target <= usize::MAX,
        n <= segment_count(len, target),
    ensures
        total_length(manifest(len, target).take(n as int)) == (if n < segment_count(len, target) {
            (n * target) as int
        } else {
            len * FRAME_CADENCE_MS
        }),
    decreases n,
{
    let entries = manifest(len, target);
    let count = segment_count(len, target);
    if n == 0 {
        assert(0 * target == 0) by (nonlinear_arith);
        if len > 0 {
            lemma_last_segment_starts_inside(len, target);
        }
    } else {
        lemma_prefix_total(len, target, (n - 1) as nat);
        lemma_last_segment_starts_inside(len, target);
        assert(entries.take(n as int).drop_last() == entries.take(n - 1));
        assert(n * target == (n - 1) * target + target) by (nonlinear_arith);
        assert(entries.take(n as int).last() == ManifestEntry::Segment(
            segment_at(len, target, n - 1),
        ));
        if n < count {
            assert(n * target <= (count - 1) * target) by (nonlinear_arith)
                requires
                    n <= count - 1,
            ;
        }
    }
}

/// The lengths of all segments of a manifest add up to the duration of the
/// full sequence, and every segment but the last is as long as the target.
pub proof fn lemma_manifest_covers(len: usize, target: usize)
    requires
        len * FRAME_CADENCE_MS <= usize::MAX,
    ensures
        total_length(manifest(len as nat, target as nat)) == len * FRAME_CADENCE_MS,
        forall|i: int|
            0 <= i && i + 1 < segment_count(len as nat, target as nat) ==> (#[trigger] manifest(
                len as nat,
                target as nat,
            )[i] matches ManifestEntry::Segment(segment) && segment.length_ms == target),
        manifest(len as nat, target as nat).last() == ManifestEntry::EndOfList,
{
    let entries = manifest(len as nat, target as nat);
    let count = segment_count(len as nat, target as nat);
    lemma_prefix_total(len as nat, target as nat, count);
    assert(entries.drop_last() == entries.take(count as int));
}

} // verus!
