//! The boundary to the `mp4` crate, which lays a container file out in
//! boxes. Nothing in this file is proved: each contract states what the
//! source of `mp4` shows of the calls that the function makes. The file
//! is written to a vector in memory, which takes every write. A writer is
//! given one track and no more: the names below have no reading for the
//! samples of two tracks, whose order among each other a writer forgets.

use vstd::prelude::*;
use crate::container::{
    brands_fit, next_chunk, total_duration, Mp4Config, Mp4ConfigView, Mp4Sample, OpenChunk,
    TrackConfig, TrackConfigView, TrackType, WrittenSample,
};

verus! {

/// The cursor of the standard library, over the bytes of a file in memory.
#[verifier::external_type_specification]
#[verifier::external_body]
#[verifier::reject_recursive_types(T)]
pub struct ExCursor<T>(std::io::Cursor<T>);

/// The writer of `mp4`, which collects a track and its samples and lays
/// them out when the file is closed.
#[verifier::external_type_specification]
#[verifier::external_body]
#[verifier::reject_recursive_types(W)]
pub struct ExMp4Writer<W>(mp4::Mp4Writer<W>);

/// The brands and the time scale that a writer was started with.
pub uninterp spec fn mp4_config(writer: mp4::Mp4Writer<std::io::Cursor<Vec<u8>>>) -> Mp4ConfigView;

/// The track that a writer was given, if it was given one yet.
pub uninterp spec fn mp4_tracks(writer: mp4::Mp4Writer<std::io::Cursor<Vec<u8>>>) -> Seq<
    TrackConfigView,
>;

/// The sample table of a writer's track, read in order: what the writer has
/// kept of each sample it was given.
pub uninterp spec fn mp4_samples(writer: mp4::Mp4Writer<std::io::Cursor<Vec<u8>>>) -> Seq<
    WrittenSample,
>;

/// The chunk that a writer has open on its track, if it has a track.
pub uninterp spec fn mp4_chunks(writer: mp4::Mp4Writer<std::io::Cursor<Vec<u8>>>) -> Seq<
    OpenChunk,
>;

/// The bytes of the file that `Mp4Writer::write_end` leaves behind for a
/// writer that was started with `config` and given at most one track, and
/// on it these samples.
pub uninterp spec fn mp4_file(
    config: Mp4ConfigView,
    tracks: Seq<TrackConfigView>,
    samples: Seq<WrittenSample>,
) -> Seq<u8>;

/// Starts a file in memory with `Mp4Writer::write_start`. The brands are
/// parsed as `mp4` parses them. Claimed: the call fails exactly where a
/// brand is not four bytes long, and a writer that comes back holds
/// `config` and nothing else.
#[verifier::external_body]
pub(crate) fn write_start(config: &Mp4Config) -> (r: Result<
    mp4::Mp4Writer<std::io::Cursor<Vec<u8>>>,
    mp4::Error,
>)
    ensures
        r is Ok <==> brands_fit(config@),
        r matches Ok(w) ==> mp4_config(w) == config@ && mp4_tracks(w).len() == 0 && mp4_samples(
            w,
        ).len() == 0 && mp4_chunks(w).len() == 0,
{
    let mut compatible_brands = Vec::new();
    for brand in config.compatible_brands.iter() {
        compatible_brands.push(brand.parse()?);
    }
    let config = mp4::Mp4Config {
        major_brand: config.major_brand.parse()?,
        minor_version: config.minor_version,
        compatible_brands,
        timescale: config.timescale,
    };
    mp4::Mp4Writer::write_start(std::io::Cursor::new(Vec::new()), &config)
}

/// Gives a writer its track, of the AVC codec, with `Mp4Writer::add_track`,
/// which reads the profile and the level out of the second to fourth byte
/// of the sequence parameter set. Claimed: the call succeeds, the track is
/// then the writer's track, with an empty chunk open, and nothing else has
/// changed.
#[verifier::external_body]
pub(crate) fn add_track(
    writer: &mut mp4::Mp4Writer<std::io::Cursor<Vec<u8>>>,
    track: &TrackConfig,
) -> (r: Result<(), mp4::Error>)
    requires
        mp4_tracks(*old(writer)).len() == 0,
        track@.seq_param_set.len() >= 4,
    ensures
        r is Ok,
        mp4_tracks(*final(writer)) == mp4_tracks(*old(writer)).push(track@),
        mp4_chunks(*final(writer)) == mp4_chunks(*old(writer)).push(
            (OpenChunk { duration: 0, filled: false }),
        ),
        mp4_config(*final(writer)) == mp4_config(*old(writer)),
        mp4_samples(*final(writer)) == mp4_samples(*old(writer)),
{
    let track_type = match track.track_type {
        TrackType::Video => mp4::TrackType::Video,
        TrackType::Audio => mp4::TrackType::Audio,
        TrackType::Subtitle => mp4::TrackType::Subtitle,
    };
    let avc = mp4::AvcConfig {
        width: track.width,
        height: track.height,
        seq_param_set: track.seq_param_set.clone(),
        pic_param_set: track.pic_param_set.clone(),
    };
    let media_conf = mp4::MediaConfig::AvcConfig(avc);
    let language = track.language.clone();
    writer.add_track(&mp4::TrackConfig { track_type, timescale: track.timescale, language, media_conf })
}

/// Hands one sample to `Mp4Writer::write_sample`. The writer counts samples
/// in thirty-two bits, adds the durations of the samples of the open chunk
/// up in thirty-two bits, divides by the time scale of the track, and adds
/// the durations in units of the file's time scale up in sixty-four bits.
/// It does not read the start time. Claimed: the call succeeds exactly
/// where the writer has its track and `track_id` is its number, one; then
/// the sample is the last of the track's sample table, the open chunk has
/// moved on as `next_chunk` says, and nothing else has changed.
#[verifier::external_body]
pub(crate) fn write_sample(
    writer: &mut mp4::Mp4Writer<std::io::Cursor<Vec<u8>>>,
    track_id: u32,
    sample: &Mp4Sample,
) -> (r: Result<(), mp4::Error>)
    requires
        mp4_tracks(*old(writer)).len() <= 1,
        mp4_samples(*old(writer)).len() + 2 <= u32::MAX,
        (total_duration(mp4_samples(*old(writer))) + sample.duration) * mp4_config(
            *old(writer),
        ).timescale <= u64::MAX,
        1 <= track_id <= mp4_tracks(*old(writer)).len() ==> mp4_tracks(*old(writer))[track_id
            - 1].timescale > 0 && mp4_chunks(*old(writer))[track_id - 1].duration + sample.duration
            <= u32::MAX,
    ensures
        r is Ok <==> 1 <= track_id <= mp4_tracks(*old(writer)).len(),
        r is Ok ==> mp4_samples(*final(writer)) == mp4_samples(*old(writer)).push(
            sample@.written(),
        ),
        r is Ok ==> mp4_chunks(*final(writer)) == mp4_chunks(*old(writer)).update(
            track_id - 1,
            next_chunk(
                mp4_chunks(*old(writer))[track_id - 1],
                mp4_tracks(*old(writer))[track_id - 1].timescale,
                sample.duration,
                sample@.bytes.len(),
            ),
        ),
        r is Ok ==> mp4_config(*final(writer)) == mp4_config(*old(writer)),
        r is Ok ==> mp4_tracks(*final(writer)) == mp4_tracks(*old(writer)),
{
    writer.write_sample(
        track_id,
        &mp4::Mp4Sample {
            start_time: sample.start_time,
            duration: sample.duration,
            rendering_offset: sample.rendering_offset,
            is_sync: sample.is_sync,
            bytes: bytes::Bytes::from(sample.bytes.clone()),
        },
    )
}

/// Closes the file with `Mp4Writer::write_end` and takes the bytes out of
/// the writer with `into_writer` and `Cursor::into_inner`. Claimed: the
/// call succeeds, and the bytes depend on what the writer was started
/// with, on its track and on the samples of the track, and on nothing else.
#[verifier::external_body]
pub(crate) fn finish(writer: mp4::Mp4Writer<std::io::Cursor<Vec<u8>>>) -> (r: Result<
    Vec<u8>,
    mp4::Error,
>)
    requires
        mp4_tracks(writer).len() <= 1,
    ensures
        r is Ok,
        r matches Ok(data) ==> data@ == mp4_file(
            mp4_config(writer),
            mp4_tracks(writer),
            mp4_samples(writer),
        ),
{
    let mut writer = writer;
    writer.write_end()?;
    Ok(writer.into_writer().into_inner())
}

} // verus!
