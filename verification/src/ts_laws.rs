//! What holds of every transport stream that the muxer makes: where its
//! packets stand in the bytes, how they are numbered, what they carry and
//! how a keyframe is marked.

use vstd::prelude::*;
use crate::codec::ts_packet_bytes;
use crate::mpegts::{
    built_packets, carried, chunk_end, first_packet, laid_out, lemma_sample_packets_wf,
    lemma_stream_bytes_push, numbered, packets_for_sample, pat_packet, pmt_packet, sample_packets,
    stream_bytes, ticks, ts_header, TimedSample, VIDEO_ES_PID,
};
use crate::packet::{ClockReference, ContinuityCounter, TsPacket, TsPacketView};

verus! {

/// The bytes of two runs of packets, one behind the other, are the bytes
/// of the first followed by the bytes of the second.
pub proof fn lemma_stream_bytes_concat(first: Seq<TsPacketView>, second: Seq<TsPacketView>)
    ensures
        stream_bytes(first + second) == stream_bytes(first) + stream_bytes(second),
    decreases second.len(),
{
    if second.len() == 0 {
        assert(first + second == first);
    } else {
        lemma_stream_bytes_concat(first, second.drop_last());
        assert((first + second).drop_last() == first + second.drop_last());
        assert(stream_bytes(first) + (stream_bytes(second.drop_last()) + ts_packet_bytes(
            second.last(),
        )) == (stream_bytes(first) + stream_bytes(second.drop_last())) + ts_packet_bytes(
            second.last(),
        ));
    }
}

/// Whatever the video packets are, a stream starts with the bytes of the
/// program association table and of the program map table, which depend on
/// nothing.
pub proof fn lemma_stream_starts_with_tables(packets: Seq<TsPacketView>)
    ensures
        stream_bytes(seq![pat_packet(), pmt_packet()] + packets) == ts_packet_bytes(pat_packet())
            + ts_packet_bytes(pmt_packet()) + stream_bytes(packets),
{
    lemma_stream_bytes_concat(seq![pat_packet(), pmt_packet()], packets);
    lemma_stream_bytes_push(Seq::empty(), pat_packet());
    lemma_stream_bytes_push(seq![pat_packet()], pmt_packet());
    assert(seq![pat_packet()].push(pmt_packet()) == seq![pat_packet(), pmt_packet()]);
}

/// In the bytes of a run of packets that are laid out, packet `k` stands
/// in the 188 bytes from 188 times `k` on.
pub proof fn lemma_packet_in_stream(packets: Seq<TsPacketView>, k: int)
    requires
        laid_out(packets),
        0 <= k < packets.len(),
    ensures
        stream_bytes(packets).len() == TsPacket::SIZE * packets.len(),
        stream_bytes(packets).subrange(TsPacket::SIZE * k, TsPacket::SIZE * k + TsPacket::SIZE)
            == ts_packet_bytes(packets[k]),
    decreases packets.len(),
{
    let front = packets.drop_last();
    assert(packets.last().is_laid_out(ts_packet_bytes(packets.last())));
    assert forall|j: int| 0 <= j < front.len() implies (#[trigger] front[j]).is_laid_out(
        ts_packet_bytes(front[j]),
    ) by {
        assert(front[j] == packets[j]);
    }
    if front.len() > 0 {
        lemma_packet_in_stream(front, if k < front.len() { k } else { 0 });
    } else {
        assert(stream_bytes(front) == Seq::<u8>::empty());
    }
    assert(stream_bytes(packets) == stream_bytes(front) + ts_packet_bytes(packets.last()));
    if k == front.len() {
        assert(stream_bytes(packets).subrange(
            TsPacket::SIZE * k,
            TsPacket::SIZE * k + TsPacket::SIZE,
        ) =~= ts_packet_bytes(packets[k]));
    } else {
        assert(stream_bytes(packets).subrange(
            TsPacket::SIZE * k,
            TsPacket::SIZE * k + TsPacket::SIZE,
        ) =~= stream_bytes(front).subrange(TsPacket::SIZE * k, TsPacket::SIZE * k + TsPacket::SIZE));
    }
}

/// In the bytes of a segment every packet starts with the sync byte, and
/// behind the two tables the video packets carry their identifier and count
/// 0, 1, ..., 15, 0, 1 and so on without a gap, in the low half of their
/// fourth byte.
pub proof fn lemma_counters_in_stream(packets: Seq<TsPacketView>, k: int)
    requires
        numbered(packets),
        laid_out(seq![pat_packet(), pmt_packet()] + packets),
        0 <= k < packets.len(),
    ensures
        ({
            let data = stream_bytes(seq![pat_packet(), pmt_packet()] + packets);
            let at = TsPacket::SIZE * (k + 2);
            &&& data.len() == TsPacket::SIZE * (packets.len() + 2)
            &&& data[at] == 0x47
            &&& (data[at + 1] % 32) * 256 + data[at + 2] == VIDEO_ES_PID
            &&& data[at + 3] % 16 == k % 16
        }),
{
    let all = seq![pat_packet(), pmt_packet()] + packets;
    let data = stream_bytes(all);
    let at = TsPacket::SIZE * (k + 2);
    lemma_packet_in_stream(all, k + 2);
    lemma_numbered_counts(packets, k);
    assert(all[k + 2] == packets[k]);
    let bytes = ts_packet_bytes(all[k + 2]);
    assert(all[k + 2].is_laid_out(bytes));
    assert(data.subrange(at, at + TsPacket::SIZE) == bytes);
    assert(bytes[0] == data[at] && bytes[1] == data[at + 1] && bytes[2] == data[at + 2] && bytes[3]
        == data[at + 3]);
}

/// The first `n` packets of an access unit carry its bytes up to the end
/// of packet `n - 1`.
proof fn lemma_carried_prefix(
    counter: ContinuityCounter,
    timestamp: u64,
    composition_time: u64,
    keyframe: bool,
    video: Seq<u8>,
    n: int,
)
    requires
        1 <= n <= packets_for_sample(video.len()),
    ensures
        carried(sample_packets(counter, timestamp, composition_time, keyframe, video).take(n))
            == video.subrange(0, chunk_end(video.len() as int, n - 1)),
    decreases n,
{
    let packets = sample_packets(counter, timestamp, composition_time, keyframe, video);
    let front = packets.take(n);
    assert(front.drop_last() == packets.take(n - 1));
    assert(front.last() == packets[n - 1]);
    if n == 1 {
        assert(carried(packets.take(0)) == Seq::<u8>::empty());
        assert(carried(front) =~= video.subrange(0, chunk_end(video.len() as int, 0)));
    } else {
        lemma_carried_prefix(counter, timestamp, composition_time, keyframe, video, n - 1);
        assert(carried(front) =~= video.subrange(0, chunk_end(video.len() as int, n - 1)));
    }
}

/// The packets of an access unit carry its bytes, all of them, once and in
/// order.
pub proof fn lemma_sample_is_carried(
    counter: ContinuityCounter,
    timestamp: u64,
    composition_time: u64,
    keyframe: bool,
    video: Seq<u8>,
)
    ensures
        carried(sample_packets(counter, timestamp, composition_time, keyframe, video)) == video,
{
    let packets = sample_packets(counter, timestamp, composition_time, keyframe, video);
    lemma_carried_prefix(
        counter,
        timestamp,
        composition_time,
        keyframe,
        video,
        packets.len() as int,
    );
    assert(packets.take(packets.len() as int) == packets);
    assert(video.subrange(0, video.len() as int) == video);
}

/// Two runs of packets, one behind the other, carry what the first carries
/// followed by what the second carries.
pub proof fn lemma_carried_concat(first: Seq<TsPacketView>, second: Seq<TsPacketView>)
    ensures
        carried(first + second) == carried(first) + carried(second),
    decreases second.len(),
{
    if second.len() == 0 {
        assert(first + second == first);
    } else {
        lemma_carried_concat(first, second.drop_last());
        assert((first + second).drop_last() == first + second.drop_last());
        assert(carried(first) + (carried(second.drop_last()) + second.last().payload.data()) == (
        carried(first) + carried(second.drop_last())) + second.last().payload.data());
    }
}

/// In the bytes of the first packet of a keyframe the random access
/// indicator is set and a clock reference is announced; in the bytes of the
/// first packet of any other access unit neither is.
pub proof fn lemma_keyframe_in_bytes(
    counter: ContinuityCounter,
    timestamp: u64,
    composition_time: u64,
    keyframe: bool,
    video: Seq<u8>,
)
    requires
        first_packet(counter, timestamp, composition_time, keyframe, video).is_laid_out(
            ts_packet_bytes(first_packet(counter, timestamp, composition_time, keyframe, video)),
        ),
    ensures
        ({
            let bytes = ts_packet_bytes(
                first_packet(counter, timestamp, composition_time, keyframe, video),
            );
            let has_field = bytes[3] / 32 % 2 == 1 && bytes[4] > 0;
            &&& keyframe ==> has_field && bytes[5] / 64 % 2 == 1 && bytes[5] / 16 % 2 == 1
            &&& !keyframe ==> !has_field || bytes[5] == 0
        }),
{
}

/// The video packets of a segment are well numbered, whatever access units
/// it is built of.
pub proof fn lemma_built_packets_numbered(samples: Seq<TimedSample>)
    requires
        built_packets(samples) is Ok,
    ensures
        numbered(built_packets(samples)->Ok_0),
    decreases samples.len(),
{
    if samples.len() > 0 {
        lemma_built_packets_numbered(samples.drop_last());
        let packets = built_packets(samples.drop_last())->Ok_0;
        lemma_sample_packets_wf(
            packets,
            (ContinuityCounter { value: 0 }).advance(packets.len()),
            samples.last().timestamp,
            samples.last().composition_time,
            samples.last().keyframe,
            samples.last().video@,
        );
    }
}

/// In a well numbered run of packets the counters read 0, 1, ..., 15, 0, 1
/// and so on: packet `i` carries `i` modulo sixteen.
pub proof fn lemma_numbered_counts(packets: Seq<TsPacketView>, i: int)
    requires
        numbered(packets),
        0 <= i < packets.len(),
    ensures
        packets[i].header.continuity_counter.value == i % 16,
        packets[i].header.pid.value == VIDEO_ES_PID,
{
    assert(packets[i].header == ts_header(
        VIDEO_ES_PID,
        (ContinuityCounter { value: 0 }).advance(i as nat),
    ));
}

/// The first packet of a keyframe carries an adaptation field with the
/// random access indicator set and the clock reference of its decode time;
/// the first packet of any other access unit carries no adaptation field,
/// and neither does any later packet.
pub proof fn lemma_keyframe_is_marked(
    counter: ContinuityCounter,
    timestamp: u64,
    composition_time: u64,
    keyframe: bool,
    video: Seq<u8>,
)
    ensures
        ({
            let packets = sample_packets(counter, timestamp, composition_time, keyframe, video);
            &&& packets.len() == packets_for_sample(video.len())
            &&& packets.len() >= 1
            &&& keyframe ==> (packets[0].adaptation_field matches Some(field)
                && field.random_access_indicator && field.pcr == Some(
                ClockReference { ticks: ticks(timestamp as int) },
            ))
            &&& !keyframe ==> packets[0].adaptation_field is None
            &&& forall|i: int|
                1 <= i < packets.len() ==> (#[trigger] packets[i]).adaptation_field is None
        }),
{
}

} // verus!
