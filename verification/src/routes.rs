//! What a request for a segment or for a playlist computes, once the access
//! units have been read.

use vstd::prelude::*;
use vstd::string::*;
use crate::container::{
    fits_container, h264streams_to_mp4, segment_config, segment_track, written_samples,
};
use crate::errors::{AppError, ErrorKind};
use crate::manifest::{
    generate, manifest, ManifestEntry, SegmentDescriptor, VideoType, FRAME_CADENCE_MS,
    SEGMENT_TARGET_MS,
};
use crate::mp4_writer::mp4_file;
use crate::mpegts::{
    built_packets, carried, laid_out, lemma_build_error, pat_packet, pmt_packet, sample_packets,
    stream_bytes, TimedSample, TransportStream, TsError, TICKS_PER_MS,
};
use crate::packet::{ContinuityCounter, Timestamp, TsPacket, TsPacketView};
use crate::text::{decimal, push_decimal, push_seconds, seconds};
use crate::ts_laws::{lemma_carried_concat, lemma_sample_is_carried};

verus! {

/// Directory that holds the access units of the stream `log_name` under `base_path`.
pub fn get_h264_path(base_path: &str, log_name: &str) -> (path: String)
    ensures
        path@ == base_path@ + "/"@ + log_name@,
{
    let mut path = String::from_str(base_path);
    path.append("/");
    path.append(log_name);
    path
}

/// The access units one after the other, with nothing between them.
pub open spec fn concat(streams: Seq<Vec<u8>>) -> Seq<u8>
    decreases streams.len(),
{
    if streams.len() == 0 {
        Seq::empty()
    } else {
        concat(streams.drop_last()) + streams.last()@
    }
}

/// The raw format: the bytes of the access units, in order.
pub fn h264streams_concat(streams: &[Vec<u8>]) -> (data: Vec<u8>)
    ensures
        data@ == concat(streams@),
{
    let mut data2 = Vec::<u8>::new();
    let mut i: usize = 0;
    while i < streams.len()
        invariant
            i <= streams@.len(),
            data2@ == concat(streams@.take(i as int)),
        decreases streams@.len() - i,
    {
        let mut bytes = streams[i].clone();
        data2.append(&mut bytes);
        assert(streams@.take(i + 1).drop_last() == streams@.take(i as int));
        i += 1;
    }
    assert(streams@.take(i as int) == streams@);
    data2
}

/// The access units of a segment with their times: `duration` milliseconds
/// apart, the first at zero, each shown when it is decoded, none of them a
/// keyframe.
pub open spec fn timed(streams: Seq<Vec<u8>>, duration: u32) -> Seq<TimedSample> {
    Seq::new(
        streams.len(),
        |i: int|
            TimedSample {
                timestamp: (i * duration) as u64,
                composition_time: 0,
                keyframe: false,
                video: streams[i],
            },
    )
}

/// The video packets of a segment, or the error of the first access unit
/// whose time is out of range.
pub open spec fn segment_packets(streams: Seq<Vec<u8>>, duration: u32) -> Result<
    Seq<TsPacketView>,
    TsError,
> {
    built_packets(timed(streams, duration))
}

/// The transport stream format: the two program tables, then the packets of
/// each access unit in order, none of them marked as a keyframe.
pub fn h264streams_to_mpegts(streams: &[Vec<u8>], duration: u32) -> (r: Result<Vec<u8>, AppError>)
    ensures
        match segment_packets(streams@, duration) {
            Ok(packets) => r matches Ok(data) && data@ == stream_bytes(
                seq![pat_packet(), pmt_packet()] + packets,
            ) && data@.len() == TsPacket::SIZE * (2 + packets.len()) && laid_out(
                seq![pat_packet(), pmt_packet()] + packets,
            ),
            Err(e) => r matches Err(err) && *err.0 == ErrorKind::TsError(e),
        },
{
    let mut ts: TransportStream = TransportStream::new();
    let mut start_time: u64 = 0;
    let ghost samples = timed(streams@, duration);
    let mut i: usize = 0;
    while i < streams.len()
        invariant
            i <= streams@.len(),
            ts.wf(),
            samples == timed(streams@, duration),
            start_time == i * duration,
            i > 0 ==> (i - 1) * duration * TICKS_PER_MS <= Timestamp::MAX,
            built_packets(samples.take(i as int)) == Ok::<Seq<TsPacketView>, TsError>(ts@),
        decreases streams@.len() - i,
    {
        let bytes = streams[i].clone();
        proof {
            assert(samples.take(i + 1).drop_last() == samples.take(i as int));
            assert(i * duration == (i - 1) * duration + duration) by (nonlinear_arith);
            assert((i + 1) * duration == i * duration + duration) by (nonlinear_arith);
        }
        match ts.push_video(start_time, 0, false, bytes) {
            Ok(()) => {},
            Err(e) => {
                proof {
                    lemma_build_error(samples, i as int);
                }
                return Err(AppError::from(e));
            },
        }
        start_time += duration as u64;
        i += 1;
    }
    assert(samples.take(i as int) == samples);
    match ts.write_to(Vec::<u8>::new()) {
        Ok(data) => Ok(data),
        Err(e) => Err(AppError::from(e)),
    }
}

/// A transport stream segment carries what the raw segment of the same
/// access units holds: every byte of every access unit, once and in order.
pub proof fn lemma_segment_carries_all(streams: Seq<Vec<u8>>, duration: u32)
    requires
        segment_packets(streams, duration) is Ok,
    ensures
        carried(segment_packets(streams, duration)->Ok_0) == concat(streams),
    decreases streams.len(),
{
    if streams.len() > 0 {
        let samples = timed(streams, duration);
        assert(samples.drop_last() == timed(streams.drop_last(), duration));
        lemma_segment_carries_all(streams.drop_last(), duration);
        let packets = segment_packets(streams.drop_last(), duration)->Ok_0;
        let counter = (ContinuityCounter { value: 0 }).advance(packets.len());
        let last = samples.last();
        lemma_sample_is_carried(counter, last.timestamp, 0, false, last.video@);
        lemma_carried_concat(
            packets,
            sample_packets(counter, last.timestamp, 0, false, last.video@),
        );
    }
}

/// Content type of a transport stream segment, and of a raw one.
pub const MP2T_CONTENT_TYPE: &'static str = "video/MP2T";

/// Content type of a container segment.
pub const MP4_CONTENT_TYPE: &'static str = "video/mp4";

/// Content type of a playlist.
pub const PLAYLIST_CONTENT_TYPE: &'static str = "application/vnd.apple.mpegurl";

/// What a segment of `frames` in the format `video_type` is: its content
/// type and its bytes, or the error that keeps it from being built.
pub open spec fn is_segment(
    video_type: VideoType,
    frames: Seq<Vec<u8>>,
    r: Result<(&'static str, Vec<u8>), AppError>,
) -> bool {
    match video_type {
        VideoType::MpegTs => match segment_packets(frames, FRAME_CADENCE_MS as u32) {
            Ok(packets) => r matches Ok(segment) && segment.0@ == MP2T_CONTENT_TYPE@ && segment.1@
                == stream_bytes(seq![pat_packet(), pmt_packet()] + packets) && laid_out(
                seq![pat_packet(), pmt_packet()] + packets,
            ),
            Err(e) => r matches Err(err) && *err.0 == ErrorKind::TsError(e),
        },
        VideoType::Mp4 => r matches Ok(segment) && segment.0@ == MP4_CONTENT_TYPE@ && segment.1@
            == mp4_file(segment_config(), seq![segment_track()], written_samples(frames)),
        VideoType::Raw => r matches Ok(segment) && segment.0@ == MP2T_CONTENT_TYPE@ && segment.1@
            == concat(frames),
    }
}

/// Builds the segment that holds `frames`, the access units of a resolved
/// window, in the format asked for.
pub fn get_segment(video_type: VideoType, frames: &[Vec<u8>]) -> (r: Result<
    (&'static str, Vec<u8>),
    AppError,
>)
    requires
        video_type == VideoType::Mp4 ==> fits_container(frames@),
    ensures
        is_segment(video_type, frames@, r),
{
    let video_bytes = match video_type {
        VideoType::MpegTs => h264streams_to_mpegts(frames, FRAME_CADENCE_MS as u32),
        VideoType::Mp4 => h264streams_to_mp4(frames),
        VideoType::Raw => Ok(h264streams_concat(frames)),
    };
    match video_bytes {
        Ok(body) => match video_type {
            VideoType::MpegTs => Ok((MP2T_CONTENT_TYPE, body)),
            VideoType::Mp4 => Ok((MP4_CONTENT_TYPE, body)),
            VideoType::Raw => Ok((MP2T_CONTENT_TYPE, body)),
        },
        Err(e) => Err(e),
    }
}

/// Building the same segment twice gives the same result: both builds
/// succeed with the same bytes under the same content type, or both fail
/// with the same error. What a build returns depends on the access units
/// and the format alone.
pub proof fn lemma_segment_is_determined(
    video_type: VideoType,
    frames: Seq<Vec<u8>>,
    first: Result<(&'static str, Vec<u8>), AppError>,
    second: Result<(&'static str, Vec<u8>), AppError>,
)
    requires
        is_segment(video_type, frames, first),
        is_segment(video_type, frames, second),
    ensures
        first is Ok <==> second is Ok,
        first is Ok ==> first.unwrap().0@ == second.unwrap().0@ && first.unwrap().1@
            == second.unwrap().1@,
        first is Err ==> *first->Err_0.0 == *second->Err_0.0,
{
}

/// First lines of every playlist.
pub const PLAYLIST_HEADER: &'static str =
    "#EXTM3U\n#EXT-X-VERSION:3\n#EXT-X-TARGETDURATION:10\n#EXT-X-MEDIA-SEQUENCE:0";

/// What a format is called in the address of a segment; the transport
/// stream, which is what a request without a format gets, is not named.
pub open spec fn video_type_query(video_type: VideoType) -> Seq<char> {
    match video_type {
        VideoType::MpegTs => Seq::empty(),
        VideoType::Mp4 => "&video_type=Mp4"@,
        VideoType::Raw => "&video_type=Raw"@,
    }
}

/// Address under which a segment of the stream `log_name` is served.
pub open spec fn segment_address(log_name: Seq<char>, segment: SegmentDescriptor) -> Seq<char> {
    "http://127.0.0.1:18080/v1/segment/"@ + log_name + "?offset="@ + decimal(
        segment.offset_ms as nat,
    ) + "&length="@ + decimal(segment.length_ms as nat) + video_type_query(segment.video_type)
}

/// Lines of one entry of a playlist: for a segment its duration in
/// seconds, to the millisecond, and its address, for the end of the list
/// its marker.
pub open spec fn entry_text(log_name: Seq<char>, entry: ManifestEntry) -> Seq<char> {
    match entry {
        ManifestEntry::Segment(segment) => "#EXTINF:"@ + seconds(segment.length_ms as nat) + ",\n"@
            + segment_address(log_name, segment) + "\n"@,
        ManifestEntry::EndOfList => "#EXT-X-ENDLIST"@,
    }
}

/// Text of a playlist: the header, then the entries in order. The first
/// entry follows the header on the same line.
pub open spec fn playlist_text(log_name: Seq<char>, entries: Seq<ManifestEntry>) -> Seq<char>
    decreases entries.len(),
{
    if entries.len() == 0 {
        PLAYLIST_HEADER@
    } else {
        playlist_text(log_name, entries.drop_last()) + entry_text(log_name, entries.last())
    }
}

/// The address under which `segment` of the stream `log_name` is served.
pub fn segment_url(log_name: &str, segment: &SegmentDescriptor) -> (url: String)
    ensures
        url@ == segment_address(log_name@, *segment),
{
    let mut url = String::from_str("http://127.0.0.1:18080/v1/segment/");
    url.append(log_name);
    url.append("?offset=");
    push_decimal(&mut url, segment.offset_ms as u64);
    url.append("&length=");
    push_decimal(&mut url, segment.length_ms as u64);
    match segment.video_type {
        VideoType::MpegTs => {},
        VideoType::Mp4 => {
            url.append("&video_type=Mp4");
        },
        VideoType::Raw => {
            url.append("&video_type=Raw");
        },
    }
    url
}

/// Appends the lines of one entry to a playlist.
fn push_entry(playlist: &mut String, log_name: &str, entry: &ManifestEntry)
    ensures
        final(playlist)@ == old(playlist)@ + entry_text(log_name@, *entry),
{
    match entry {
        ManifestEntry::Segment(segment) => {
            playlist.append("#EXTINF:");
            push_seconds(playlist, segment.length_ms as u64);
            playlist.append(",\n");
            let url = segment_url(log_name, segment);
            playlist.append(url.as_str());
            playlist.append("\n");
        },
        ManifestEntry::EndOfList => {
            playlist.append("#EXT-X-ENDLIST");
        },
    }
}

/// The playlist of the stream `log_name`, which has `files` access units:
/// its segments of five seconds, and the end marker.
pub fn get_playlist(log_name: &str, files: usize) -> (playlist: String)
    requires
        files * FRAME_CADENCE_MS <= usize::MAX,
    ensures
        playlist@ == playlist_text(log_name@, manifest(files as nat, SEGMENT_TARGET_MS as nat)),
{
    let entries = generate(files, SEGMENT_TARGET_MS);
    let mut playlist = String::from_str(PLAYLIST_HEADER);
    let mut i: usize = 0;
    while i < entries.len()
        invariant
            i <= entries@.len(),
            playlist@ == playlist_text(log_name@, entries@.take(i as int)),
        decreases entries@.len() - i,
    {
        push_entry(&mut playlist, log_name, &entries[i]);
        assert(entries@.take(i + 1).drop_last() == entries@.take(i as int));
        i += 1;
    }
    assert(entries@.take(i as int) == entries@);
    playlist
}

} // verus!
