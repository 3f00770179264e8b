//! The container adapter: access units as the samples of one video track in
//! a fragmented container file, every sample of the same duration.

use vstd::prelude::*;
use vstd::string::*;
use crate::errors::{AppError, ErrorKind};
use crate::mp4_writer::{
    add_track, finish, mp4_chunks, mp4_config, mp4_file, mp4_samples, mp4_tracks, write_sample,
    write_start,
};
use vstd::utf8::{encode_utf8, is_ascii_chars, is_ascii_chars_encode_utf8};

verus! {

/// Brands and time scale of a container file.
#[derive(Debug)]
pub struct Mp4Config {
    pub major_brand: String,
    pub minor_version: u32,
    pub compatible_brands: Vec<String>,
    pub timescale: u32,
}

/// What an `Mp4Config` holds.
pub struct Mp4ConfigView {
    pub major_brand: Seq<char>,
    pub minor_version: u32,
    pub compatible_brands: Seq<Seq<char>>,
    pub timescale: u32,
}

impl View for Mp4Config {
    type V = Mp4ConfigView;

    open spec fn view(&self) -> Mp4ConfigView {
        Mp4ConfigView {
            major_brand: self.major_brand@,
            minor_version: self.minor_version,
            compatible_brands: Seq::new(
                self.compatible_brands@.len(),
                |i: int| self.compatible_brands@[i]@,
            ),
            timescale: self.timescale,
        }
    }
}

/// What a track holds: pictures, sound or text.
#[derive(Clone, Copy, Debug, PartialEq, Eq, Structural)]
pub enum TrackType {
    Video,
    Audio,
    Subtitle,
}

/// A track of the AVC codec: its kind, its time scale, its language, the
/// size of the picture and the two parameter sets.
#[derive(Debug)]
pub struct TrackConfig {
    pub track_type: TrackType,
    pub timescale: u32,
    pub language: String,
    pub width: u16,
    pub height: u16,
    pub seq_param_set: Vec<u8>,
    pub pic_param_set: Vec<u8>,
}

/// What a `TrackConfig` holds.
pub struct TrackConfigView {
    pub track_type: TrackType,
    pub timescale: u32,
    pub language: Seq<char>,
    pub width: u16,
    pub height: u16,
    pub seq_param_set: Seq<u8>,
    pub pic_param_set: Seq<u8>,
}

impl View for TrackConfig {
    type V = TrackConfigView;

    open spec fn view(&self) -> TrackConfigView {
        TrackConfigView {
            track_type: self.track_type,
            timescale: self.timescale,
            language: self.language@,
            width: self.width,
            height: self.height,
            seq_param_set: self.seq_param_set@,
            pic_param_set: self.pic_param_set@,
        }
    }
}

/// One access unit with its place in time, in units of the track's time scale.
#[derive(Debug)]
pub struct Mp4Sample {
    pub start_time: u64,
    pub duration: u32,
    pub rendering_offset: i32,
    pub is_sync: bool,
    pub bytes: Vec<u8>,
}

/// What an `Mp4Sample` holds.
pub struct Mp4SampleView {
    pub start_time: u64,
    pub duration: u32,
    pub rendering_offset: i32,
    pub is_sync: bool,
    pub bytes: Seq<u8>,
}

impl View for Mp4Sample {
    type V = Mp4SampleView;

    open spec fn view(&self) -> Mp4SampleView {
        Mp4SampleView {
            start_time: self.start_time,
            duration: self.duration,
            rendering_offset: self.rendering_offset,
            is_sync: self.is_sync,
            bytes: self.bytes@,
        }
    }
}

/// What a writer keeps of a sample. It does not keep the start time: a
/// sample starts where the one before it on its track ends.
pub struct WrittenSample {
    pub duration: u32,
    pub rendering_offset: i32,
    pub is_sync: bool,
    pub bytes: Seq<u8>,
}

impl Mp4SampleView {
    /// What a writer keeps of this sample.
    pub open spec fn written(self) -> WrittenSample {
        WrittenSample {
            duration: self.duration,
            rendering_offset: self.rendering_offset,
            is_sync: self.is_sync,
            bytes: self.bytes,
        }
    }
}

/// The chunk that a writer has open on a track: the durations of its
/// samples added up, and whether it holds any byte.
pub struct OpenChunk {
    pub duration: u32,
    pub filled: bool,
}

/// The open chunk of a track after one more sample. A chunk is closed, and
/// a new one opened, when its samples last as long as one unit of the
/// track's time scale; a chunk without a byte is never closed.
pub open spec fn next_chunk(chunk: OpenChunk, timescale: u32, duration: u32, len: nat) -> OpenChunk {
    if chunk.duration + duration >= timescale && (chunk.filled || len > 0) {
        OpenChunk { duration: 0, filled: false }
    } else {
        OpenChunk { duration: (chunk.duration + duration) as u32, filled: chunk.filled || len > 0 }
    }
}

/// Whether a brand is four bytes long, as a file has room for.
pub open spec fn four_bytes(brand: Seq<char>) -> bool {
    encode_utf8(brand).len() == 4
}

/// Whether every brand of `config` is four bytes long.
pub open spec fn brands_fit(config: Mp4ConfigView) -> bool {
    &&& four_bytes(config.major_brand)
    &&& forall|i: int|
        0 <= i < config.compatible_brands.len() ==> four_bytes(#[trigger] config.compatible_brands[i])
}

/// Duration of every sample, in units of the track's time scale.
pub const SAMPLE_DURATION: u32 = 60000;

/// Time scale of the track of a segment, in units a second.
pub const TRACK_TIMESCALE: u32 = 1200000;

/// The one track of a file.
pub const TRACK_ID: u32 = 1;

/// Durations of samples, taken together.
pub open spec fn total_duration(samples: Seq<WrittenSample>) -> nat
    decreases samples.len(),
{
    if samples.len() == 0 {
        0
    } else {
        total_duration(samples.drop_last()) + samples.last().duration as nat
    }
}

/// Brands and time scale of every segment.
pub open spec fn segment_config() -> Mp4ConfigView {
    Mp4ConfigView {
        major_brand: "isom"@,
        minor_version: 512,
        compatible_brands: seq!["isom"@, "iso2"@, "avc1"@, "mp41"@],
        timescale: 1000,
    }
}

/// The video track of every segment.
pub open spec fn segment_track() -> TrackConfigView {
    TrackConfigView {
        track_type: TrackType::Video,
        timescale: TRACK_TIMESCALE,
        language: "und"@,
        width: 2816,
        height: 1856,
        seq_param_set: seq![
            0x27u8, 0x64u8, 0x00u8, 0x32u8, 0xacu8, 0x1bu8, 0x1au8, 0x80u8, 0x2cu8, 0x00u8, 0xe9u8,
            0x30u8, 0x16u8, 0xc8u8, 0x00u8, 0x00u8, 0x1fu8, 0x40u8, 0x00u8, 0x04u8, 0xe2u8, 0x07u8,
            0x43u8, 0x00u8, 0x01u8, 0x7du8, 0x78u8, 0x00u8, 0x00u8, 0x5fu8, 0x5eu8, 0x15u8, 0xdeu8,
            0x5cu8, 0x68u8, 0x60u8, 0x00u8, 0x2fu8, 0xafu8, 0x00u8, 0x00u8, 0x0bu8, 0xebu8, 0xc2u8,
            0xbbu8, 0xcbu8, 0x85u8, 0x00u8,
        ],
        pic_param_set: seq![0x28u8, 0xeeu8, 0x38u8, 0x30u8],
    }
}

/// Access unit `i` of a segment as a sample: it starts at `i` times the
/// sample duration, whatever time it was taken at, is shown when it is
/// decoded and is no point to start decoding at.
pub open spec fn timed_sample(i: int, bytes: Seq<u8>) -> Mp4SampleView {
    Mp4SampleView {
        start_time: (i * SAMPLE_DURATION) as u64,
        duration: SAMPLE_DURATION,
        rendering_offset: 0,
        is_sync: false,
        bytes,
    }
}

/// What the writer keeps of the samples of a segment on its one track.
pub open spec fn written_samples(streams: Seq<Vec<u8>>) -> Seq<WrittenSample> {
    Seq::new(streams.len(), |i: int| timed_sample(i, streams[i]@).written())
}

/// The chunk that is open behind the access units of a segment.
pub open spec fn open_chunk(streams: Seq<Vec<u8>>) -> OpenChunk
    decreases streams.len(),
{
    if streams.len() == 0 {
        OpenChunk { duration: 0, filled: false }
    } else {
        next_chunk(
            open_chunk(streams.drop_last()),
            TRACK_TIMESCALE,
            SAMPLE_DURATION,
            streams.last()@.len(),
        )
    }
}

/// Whether one file takes these access units: the writer counts samples in
/// thirty-two bits, and adds the durations of the samples of a chunk up in
/// thirty-two bits, so that a long run of empty access units, which never
/// closes a chunk, has no room there.
pub open spec fn fits_container(streams: Seq<Vec<u8>>) -> bool {
    &&& streams.len() + 2 <= u32::MAX
    &&& forall|n: int|
        0 <= n < streams.len() ==> (#[trigger] open_chunk(streams.take(n))).duration
            + SAMPLE_DURATION <= u32::MAX
}

/// The first `n` samples of a segment last `n` sample durations.
proof fn lemma_total_duration(streams: Seq<Vec<u8>>, n: int)
    requires
        0 <= n <= streams.len(),
    ensures
        total_duration(written_samples(streams).take(n)) == n * SAMPLE_DURATION,
    decreases n,
{
    if n > 0 {
        lemma_total_duration(streams, n - 1);
        assert(written_samples(streams).take(n).drop_last() == written_samples(streams).take(n - 1));
    }
}

/// Brands and time scale of every segment.
fn default_config() -> (r: Mp4Config)
    ensures
        r@ == segment_config(),
{
    let mut compatible_brands: Vec<String> = Vec::new();
    compatible_brands.push(String::from_str("isom"));
    compatible_brands.push(String::from_str("iso2"));
    compatible_brands.push(String::from_str("avc1"));
    compatible_brands.push(String::from_str("mp41"));
    let r = Mp4Config {
        major_brand: String::from_str("isom"),
        minor_version: 512,
        compatible_brands,
        timescale: 1000,
    };
    assert(r@.compatible_brands =~= segment_config().compatible_brands);
    r
}

/// The video track of every segment.
fn default_track() -> (r: TrackConfig)
    ensures
        r@ == segment_track(),
{
    TrackConfig {
        track_type: TrackType::Video,
        timescale: TRACK_TIMESCALE,
        language: String::from_str("und"),
        width: 2816,
        height: 1856,
        seq_param_set: vec![
            0x27, 0x64, 0x00, 0x32, 0xac, 0x1b, 0x1a, 0x80, 0x2c, 0x00, 0xe9, 0x30, 0x16, 0xc8,
            0x00, 0x00, 0x1f, 0x40, 0x00, 0x04, 0xe2, 0x07, 0x43, 0x00, 0x01, 0x7d, 0x78, 0x00,
            0x00, 0x5f, 0x5e, 0x15, 0xde, 0x5c, 0x68, 0x60, 0x00, 0x2f, 0xaf, 0x00, 0x00, 0x0b,
            0xeb, 0xc2, 0xbb, 0xcb, 0x85, 0x00,
        ],
        pic_param_set: vec![0x28, 0xee, 0x38, 0x30],
    }
}

/// The brands of every segment are four letters each.
proof fn lemma_segment_brands_fit()
    ensures
        brands_fit(segment_config()),
{
    reveal_strlit("isom");
    reveal_strlit("iso2");
    reveal_strlit("avc1");
    reveal_strlit("mp41");
    assert(is_ascii_chars("isom"@) && is_ascii_chars("iso2"@) && is_ascii_chars("avc1"@)
        && is_ascii_chars("mp41"@));
    is_ascii_chars_encode_utf8("isom"@);
    is_ascii_chars_encode_utf8("iso2"@);
    is_ascii_chars_encode_utf8("avc1"@);
    is_ascii_chars_encode_utf8("mp41"@);
}

/// The access units of a segment as samples: each as long as every other,
/// each starting where the one before it ends.
pub fn segment_samples(streams: &[Vec<u8>]) -> (samples: Vec<Mp4Sample>)
    requires
        streams@.len() * SAMPLE_DURATION <= u64::MAX,
    ensures
        samples@.len() == streams@.len(),
        forall|i: int|
            0 <= i < samples@.len() ==> (#[trigger] samples@[i])@ == timed_sample(i, streams@[i]@),
{
    let mut samples: Vec<Mp4Sample> = Vec::new();
    let mut start_time: u64 = 0;
    let duration: u32 = SAMPLE_DURATION;
    let mut i: usize = 0;
    while i < streams.len()
        invariant
            i <= streams@.len(),
            streams@.len() * SAMPLE_DURATION <= u64::MAX,
            duration == SAMPLE_DURATION,
            start_time == i * SAMPLE_DURATION,
            samples@.len() == i,
            forall|k: int|
                0 <= k < i ==> (#[trigger] samples@[k])@ == timed_sample(k, streams@[k]@),
        decreases streams@.len() - i,
    {
        samples.push(
            Mp4Sample {
                start_time,
                duration,
                rendering_offset: 0,
                is_sync: false,
                bytes: streams[i].clone(),
            },
        );
        assert((i + 1) * SAMPLE_DURATION <= streams@.len() * SAMPLE_DURATION) by (nonlinear_arith)
            requires
                i + 1 <= streams@.len(),
        ;
        start_time += duration as u64;
        i += 1;
    }
    samples
}

/// Whether one file takes these access units.
pub fn can_hold(streams: &[Vec<u8>]) -> (r: bool)
    ensures
        r == fits_container(streams@),
{
    let len = streams.len();
    if len > 0xFFFF_FFFD {
        return false;
    }
    let mut duration: u32 = 0;
    let mut filled = false;
    let mut i: usize = 0;
    while i < len
        invariant
            len == streams@.len(),
            len <= 0xFFFF_FFFD,
            i <= len,
            open_chunk(streams@.take(i as int)) == (OpenChunk { duration, filled }),
            forall|n: int|
                0 <= n < i ==> (#[trigger] open_chunk(streams@.take(n))).duration + SAMPLE_DURATION
                    <= u32::MAX,
        decreases len - i,
    {
        if duration > u32::MAX - SAMPLE_DURATION {
            return false;
        }
        assert(streams@.take(i + 1).drop_last() == streams@.take(i as int));
        duration += SAMPLE_DURATION;
        filled = filled || streams[i].len() > 0;
        if duration >= TRACK_TIMESCALE && filled {
            duration = 0;
            filled = false;
        }
        i += 1;
    }
    true
}

/// The container format: one video track, and the access units as its
/// samples in order.
pub fn h264streams_to_mp4(streams: &[Vec<u8>]) -> (r: Result<Vec<u8>, AppError>)
    requires
        fits_container(streams@),
    ensures
        r matches Ok(data) && data@ == mp4_file(
            segment_config(),
            seq![segment_track()],
            written_samples(streams@),
        ),
{
    let config = default_config();
    proof {
        lemma_segment_brands_fit();
    }
    let mut wrt = match write_start(&config) {
        Ok(wrt) => wrt,
        Err(e) => {
            return Err(AppError::from(e));
        },
    };
    let track_cfg = default_track();
    match add_track(&mut wrt, &track_cfg) {
        Ok(()) => {},
        Err(e) => {
            return Err(AppError::from(e));
        },
    }
    assert(mp4_tracks(wrt) =~= seq![segment_track()]);
    assert(mp4_samples(wrt) =~= written_samples(streams@).take(0));
    assert(mp4_chunks(wrt) =~= seq![open_chunk(streams@.take(0))]);

    let samples = segment_samples(streams);
    let track_id: u32 = TRACK_ID;
    let mut i: usize = 0;
    while i < samples.len()
        invariant
            i <= streams@.len(),
            samples@.len() == streams@.len(),
            forall|k: int|
                0 <= k < samples@.len() ==> (#[trigger] samples@[k])@ == timed_sample(
                    k,
                    streams@[k]@,
                ),
            fits_container(streams@),
            track_id == TRACK_ID,
            mp4_config(wrt) == segment_config(),
            mp4_tracks(wrt) == seq![segment_track()],
            mp4_samples(wrt) == written_samples(streams@).take(i as int),
            mp4_chunks(wrt) == seq![open_chunk(streams@.take(i as int))],
        decreases streams@.len() - i,
    {
        proof {
            lemma_total_duration(streams@, i as int);
            assert(streams@.take(i + 1).drop_last() == streams@.take(i as int));
            assert(written_samples(streams@).take(i as int).push(samples@[i as int]@.written())
                =~= written_samples(streams@).take(i + 1));
            assert((i * SAMPLE_DURATION + SAMPLE_DURATION) * 1000 <= u64::MAX) by (nonlinear_arith)
                requires
                    i <= 0xFFFF_FFFF,
            ;
        }
        match write_sample(&mut wrt, track_id, &samples[i]) {
            Ok(()) => {},
            Err(e) => {
                return Err(AppError::from(e));
            },
        }
        assert(mp4_chunks(wrt) =~= seq![open_chunk(streams@.take(i + 1))]);
        i += 1;
    }
    assert(written_samples(streams@).take(i as int) == written_samples(streams@));
    match finish(wrt) {
        Ok(data) => Ok(data),
        Err(e) => Err(AppError::from(e)),
    }
}

} // verus!
