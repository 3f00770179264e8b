use dynamic_hls::container::{can_hold, h264streams_to_mp4, segment_samples};
use dynamic_hls::errors::{AppError, ErrorKind};
use dynamic_hls::manifest::VideoType;
use dynamic_hls::mpegts::TsError;
use dynamic_hls::routes::{
    get_h264_path, get_segment, h264streams_concat, h264streams_to_mpegts, MP2T_CONTENT_TYPE,
    MP4_CONTENT_TYPE,
};
use dynamic_hls::window::resolve;
use mpeg2ts::ts::{ReadTsPacket, TsPacketReader, TsPayload};
use std::io::Cursor;

fn access_unit(i: usize) -> Vec<u8> {
    let len = 40 + (i * 97) % 900;
    (0..len).map(|j| (i + j * 7) as u8).collect()
}

fn sequence(n: usize) -> Vec<Vec<u8>> {
    (0..n).map(access_unit).collect()
}

fn packets_for_sample(payload_len: usize) -> usize {
    1 + (payload_len.saturating_sub(152) + 183) / 184
}

#[test]
fn path_joins_base_and_name() {
    assert_eq!(get_h264_path("/data/testing/camera", "log1"), "/data/testing/camera/log1");
    assert_eq!(get_h264_path("", ""), "/");
}

#[test]
fn five_seconds_of_transport_stream() {
    let all = sequence(120);
    let window = resolve(&all, 0, 5000);
    assert_eq!(window.len(), 100);
    let (content_type, bytes) = get_segment(VideoType::MpegTs, window).unwrap();
    assert_eq!(content_type, "video/MP2T");
    assert_eq!(bytes.len() % 188, 0);
    let expected: usize = 2 + window.iter().map(|s| packets_for_sample(s.len())).sum::<usize>();
    assert_eq!(bytes.len() / 188, expected);
    assert!(bytes.chunks(188).all(|p| p[0] == 0x47));
}

#[test]
fn transport_stream_times_start_at_zero_in_every_segment() {
    let all = sequence(120);
    let bytes = h264streams_to_mpegts(resolve(&all, 5000, 1000), 50).unwrap();
    let mut reader = TsPacketReader::new(&bytes[..]);
    let mut times = Vec::new();
    let mut counters = Vec::new();
    while let Some(packet) = reader.read_ts_packet().unwrap() {
        if packet.header.pid.as_u16() == 257 {
            counters.push(packet.header.continuity_counter.as_u8());
        }
        if let Some(TsPayload::Pes(pes)) = packet.payload {
            assert_eq!(pes.header.pts, pes.header.dts);
            times.push(pes.header.dts.unwrap().as_u64());
            if let Some(field) = packet.adaptation_field {
                assert!(!field.random_access_indicator);
                assert!(field.pcr.is_none());
            }
        }
    }
    let expected: Vec<u64> = (0..20).map(|i| i * 50 * 90).collect();
    assert_eq!(times, expected);
    for (i, c) in counters.iter().enumerate() {
        assert_eq!(*c as usize, i % 16);
    }
}

#[test]
fn window_past_the_end_gives_the_smallest_output_of_each_format() {
    let all = sequence(120);
    let window = resolve(&all, 6000, 5000);
    assert!(window.is_empty());

    let (content_type, ts) = get_segment(VideoType::MpegTs, window).unwrap();
    assert_eq!(content_type, MP2T_CONTENT_TYPE);
    assert_eq!(ts.len(), 2 * 188);

    let (content_type, raw) = get_segment(VideoType::Raw, window).unwrap();
    assert_eq!(content_type, MP2T_CONTENT_TYPE);
    assert!(raw.is_empty());

    let (content_type, mp4) = get_segment(VideoType::Mp4, window).unwrap();
    assert_eq!(content_type, MP4_CONTENT_TYPE);
    assert_eq!(&mp4[4..8], b"ftyp");
    let size = mp4.len() as u64;
    let file = mp4::Mp4Reader::read_header(Cursor::new(mp4), size).unwrap();
    assert_eq!(file.tracks().len(), 1);
    assert_eq!(file.sample_count(1).unwrap(), 0);
}

#[test]
fn raw_is_the_access_units_one_after_the_other() {
    let all = sequence(7);
    assert_eq!(h264streams_concat(&all[2..5]), all[2..5].concat());
    assert_eq!(h264streams_concat(&[]), Vec::<u8>::new());
    assert_eq!(h264streams_concat(&[vec![], vec![1], vec![], vec![2, 3]]), vec![1, 2, 3]);
}

#[test]
fn same_request_twice_gives_the_same_bytes() {
    let all = sequence(120);
    for video_type in [VideoType::MpegTs, VideoType::Mp4, VideoType::Raw] {
        let a = get_segment(video_type, resolve(&all, 1000, 2000)).unwrap();
        let b = get_segment(video_type, resolve(&all, 1000, 2000)).unwrap();
        assert_eq!(a, b);
        assert!(!a.1.is_empty());
    }
}

#[test]
fn default_format_is_transport_stream() {
    assert_eq!(VideoType::default(), VideoType::MpegTs);
}

#[test]
fn container_holds_one_track_with_the_samples_in_order() {
    let all = sequence(30);
    let bytes = h264streams_to_mp4(&all).unwrap();
    let size = bytes.len() as u64;
    let mut file = mp4::Mp4Reader::read_header(Cursor::new(bytes), size).unwrap();
    assert_eq!(file.major_brand().to_string(), "isom");
    assert_eq!(file.minor_version(), 512);
    let brands: Vec<String> = file.compatible_brands().iter().map(|b| b.to_string()).collect();
    assert_eq!(brands, vec!["isom", "iso2", "avc1", "mp41"]);
    assert_eq!(file.timescale(), 1000);
    assert_eq!(file.tracks().len(), 1);
    {
        let track = &file.tracks()[&1];
        assert_eq!(track.track_type().unwrap(), mp4::TrackType::Video);
        assert_eq!(track.timescale(), 1200000);
        assert_eq!(track.language(), "und");
        assert_eq!(track.width(), 2816);
        assert_eq!(track.height(), 1856);
        assert_eq!(track.sequence_parameter_set().unwrap().len(), 48);
        assert_eq!(track.sequence_parameter_set().unwrap()[..4], [0x27, 0x64, 0x00, 0x32]);
        assert_eq!(track.picture_parameter_set().unwrap(), &[0x28, 0xee, 0x38, 0x30]);
    }
    assert_eq!(file.sample_count(1).unwrap(), 30);
    for i in 0..30u32 {
        let sample = file.read_sample(1, i + 1).unwrap().unwrap();
        assert_eq!(sample.start_time, i as u64 * 60000);
        assert_eq!(sample.duration, 60000);
        assert_eq!(sample.rendering_offset, 0);
        assert_eq!(&sample.bytes[..], &all[i as usize][..]);
    }
}

#[test]
fn segment_too_long_for_the_timestamps_is_refused() {
    let frames: Vec<Vec<u8>> = vec![vec![0u8; 4]; 3];
    let duration = u32::MAX;
    match h264streams_to_mpegts(&frames, duration) {
        Err(AppError(kind)) => match *kind {
            ErrorKind::TsError(TsError::InvalidTimestamp(v)) => {
                assert_eq!(v, duration as u64 * 90)
            }
            other => panic!("unexpected {:?}", other),
        },
        Ok(_) => panic!("built a segment beyond the timestamp's range"),
    }
    assert!(h264streams_to_mpegts(&frames[..1], duration).is_ok());
    let duration = 50_000_000;
    match h264streams_to_mpegts(&frames, duration) {
        Err(AppError(kind)) => match *kind {
            ErrorKind::TsError(TsError::InvalidTimestamp(v)) => {
                assert_eq!(v, 2 * duration as u64 * 90)
            }
            other => panic!("unexpected {:?}", other),
        },
        Ok(_) => panic!("built a segment beyond the timestamp's range"),
    }
    assert!(h264streams_to_mpegts(&frames[..2], duration).is_ok());
}

#[test]
fn error_codes() {
    let ts = AppError::from(TsError::PayloadTooBig);
    assert_eq!(ts.get_codes(), (400, 40004));
    let io = AppError::from(std::io::Error::new(std::io::ErrorKind::NotFound, "gone"));
    assert_eq!(io.get_codes(), (400, 40002));
    let mp4 = AppError::from(mp4::Error::InvalidData("bad"));
    assert_eq!(mp4.get_codes(), (400, 40003));
    let json = serde_json::from_str::<u8>("x").unwrap_err();
    assert_eq!(AppError::from(json).get_codes(), (400, 40001));
    assert_eq!(AppError(Box::new(ErrorKind::from(TsError::WriteError))).get_codes(), (400, 40004));
}

#[test]
fn container_takes_what_its_writer_can_count() {
    assert!(can_hold(&[]));
    assert!(can_hold(&vec![Vec::new(); 71582]));
    assert!(!can_hold(&vec![Vec::new(); 71583]));
    assert!(can_hold(&vec![vec![0u8]; 71583]));
    let mut frames = vec![vec![0u8]; 80000];
    assert!(can_hold(&frames));
    frames[79999].clear();
    assert!(can_hold(&frames));
    frames[40000].clear();
    assert!(can_hold(&frames));
}

#[test]
fn container_has_no_room_for_a_long_run_of_empty_access_units() {
    // Twenty units fill a chunk; behind them the run of empty ones starts at nothing.
    let mut frames = vec![vec![0u8]; 20];
    frames.extend(vec![Vec::new(); 71582]);
    assert!(can_hold(&frames));
    frames.push(Vec::new());
    assert!(!can_hold(&frames));
    frames.push(vec![1u8]);
    assert!(!can_hold(&frames));

    // One unit with bytes in the open chunk: the chunk closes with the
    // twentieth unit, and the run behind it starts at nothing.
    let mut frames = vec![vec![0u8]; 1];
    frames.extend(vec![Vec::new(); 19 + 71582]);
    assert!(can_hold(&frames));
    let bytes = h264streams_to_mp4(&frames).unwrap();
    let size = bytes.len() as u64;
    let file = mp4::Mp4Reader::read_header(Cursor::new(bytes), size).unwrap();
    assert_eq!(file.sample_count(1).unwrap(), 71602);
    frames.push(Vec::new());
    assert!(!can_hold(&frames));
}

#[test]
fn container_with_empty_access_units() {
    let frames = vec![Vec::new(), vec![1u8, 2, 3], Vec::new()];
    let bytes = h264streams_to_mp4(&frames).unwrap();
    let size = bytes.len() as u64;
    let mut file = mp4::Mp4Reader::read_header(Cursor::new(bytes), size).unwrap();
    assert_eq!(file.sample_count(1).unwrap(), 3);
    assert_eq!(&file.read_sample(1, 2).unwrap().unwrap().bytes[..], &[1, 2, 3]);
}

#[test]
fn container_at_the_limits_of_its_writer() {
    let empty = vec![Vec::new(); 71582];
    assert!(can_hold(&empty));
    let bytes = h264streams_to_mp4(&empty).unwrap();
    let size = bytes.len() as u64;
    let file = mp4::Mp4Reader::read_header(Cursor::new(bytes), size).unwrap();
    assert_eq!(file.sample_count(1).unwrap(), 71582);

    let mut small = vec![vec![7u8]; 90000];
    small[12345].clear();
    small[89998].clear();
    assert!(can_hold(&small));
    let bytes = h264streams_to_mp4(&small).unwrap();
    let size = bytes.len() as u64;
    let mut file = mp4::Mp4Reader::read_header(Cursor::new(bytes), size).unwrap();
    assert_eq!(file.sample_count(1).unwrap(), 90000);
    let last = file.read_sample(1, 90000).unwrap().unwrap();
    assert_eq!(last.start_time, 89999 * 60000);
    assert_eq!(&last.bytes[..], &[7]);
}

#[test]
fn samples_start_where_the_one_before_ends() {
    let all = sequence(5);
    let samples = segment_samples(&all);
    assert_eq!(samples.len(), 5);
    for (i, sample) in samples.iter().enumerate() {
        assert_eq!(sample.start_time, 60000 * i as u64);
        assert_eq!(sample.duration, 60000);
        assert_eq!(sample.rendering_offset, 0);
        assert!(!sample.is_sync);
        assert_eq!(sample.bytes, all[i]);
    }
    assert!(segment_samples(&[]).is_empty());
}
