use dynamic_hls::mpegts::{build, TimedSample, TransportStream, TsError};
use dynamic_hls::packet::{ContinuityCounter, Payload};
use mpeg2ts::ts::{ReadTsPacket, TsPacketReader, TsPayload};

fn sample(len: usize, seed: u8) -> Vec<u8> {
    (0..len).map(|i| (i as u8).wrapping_mul(31).wrapping_add(seed)).collect()
}

fn read_back(bytes: &[u8]) -> Vec<mpeg2ts::ts::TsPacket> {
    let mut reader = TsPacketReader::new(bytes);
    let mut packets = Vec::new();
    while let Some(packet) = reader.read_ts_packet().unwrap() {
        packets.push(packet);
    }
    packets
}

#[test]
fn empty_stream_is_the_two_tables() {
    let mut ts = TransportStream::new();
    let out = ts.write_to(Vec::new()).unwrap();
    assert_eq!(out.len(), 2 * 188);
    let packets = read_back(&out);
    assert_eq!(packets.len(), 2);
    assert_eq!(packets[0].header.pid.as_u16(), 0);
    assert_eq!(packets[1].header.pid.as_u16(), 256);
    match &packets[0].payload {
        Some(TsPayload::Pat(pat)) => {
            assert_eq!(pat.transport_stream_id, 1);
            assert_eq!(pat.version_number.as_u8(), 0);
            assert_eq!(pat.table.len(), 1);
            assert_eq!(pat.table[0].program_num, 1);
            assert_eq!(pat.table[0].program_map_pid.as_u16(), 256);
        }
        other => panic!("not a program association table: {:?}", other),
    }
    match &packets[1].payload {
        Some(TsPayload::Pmt(pmt)) => {
            assert_eq!(pmt.program_num, 1);
            assert_eq!(pmt.version_number.as_u8(), 0);
            assert!(pmt.program_info.is_empty());
            assert!(pmt.es_info[0].descriptors.is_empty());
            assert_eq!(pmt.pcr_pid.map(|p| p.as_u16()), Some(257));
            assert_eq!(pmt.es_info.len(), 1);
            assert_eq!(pmt.es_info[0].stream_type, mpeg2ts::es::StreamType::H264);
            assert_eq!(pmt.es_info[0].elementary_pid.as_u16(), 257);
        }
        other => panic!("not a program map table: {:?}", other),
    }
}

#[test]
fn program_association_table_bytes() {
    let mut ts = TransportStream::new();
    let out = ts.write_to(Vec::new()).unwrap();
    assert_eq!(&out[..6], &[0x47, 0x40, 0x00, 0x30, 0xA6, 0x00]);
    assert!(out[6..171].iter().all(|b| *b == 0xFF));
    assert_eq!(
        &out[171..184],
        &[0x00, 0x00, 0xB0, 0x0D, 0x00, 0x01, 0xC1, 0x00, 0x00, 0x00, 0x01, 0xE1, 0x00]
    );
    assert_eq!(&out[188..192], &[0x47, 0x41, 0x00, 0x30]);
}

#[test]
fn write_to_appends_to_what_is_there() {
    let mut ts = TransportStream::new();
    ts.push_video(0, 0, false, sample(10, 1)).unwrap();
    let fresh = ts.write_to(Vec::new()).unwrap();
    let appended = ts.write_to(vec![1, 2, 3]).unwrap();
    assert_eq!(&appended[..3], &[1, 2, 3]);
    assert_eq!(&appended[3..], &fresh[..]);
}

#[test]
fn tables_come_first_and_are_the_same_in_every_build() {
    let mut a = TransportStream::new();
    a.push_video(0, 0, true, sample(1000, 1)).unwrap();
    let mut b = TransportStream::new();
    b.push_video(50, 10, false, sample(3, 2)).unwrap();
    b.push_video(100, 0, false, sample(300, 3)).unwrap();
    let out_a = a.write_to(Vec::new()).unwrap();
    let out_b = b.write_to(Vec::new()).unwrap();
    assert_eq!(&out_a[..376], &out_b[..376]);
    let empty = TransportStream::new().write_to(Vec::new()).unwrap();
    assert_eq!(&out_a[..376], &empty[..]);
}

#[test]
fn packets_of_one_sample() {
    for (len, expected) in [
        (0usize, 1usize),
        (1, 1),
        (151, 1),
        (152, 1),
        (153, 2),
        (336, 2),
        (337, 3),
        (520, 3),
        (521, 4),
        (5000, 28),
    ] {
        let mut ts = TransportStream::new();
        ts.push_video(0, 0, false, sample(len, 7)).unwrap();
        assert_eq!(ts.packets().len(), expected, "for {} bytes", len);
        let out = ts.write_to(Vec::new()).unwrap();
        assert_eq!(out.len(), 188 * (2 + expected));
    }
}

#[test]
fn payload_is_cut_in_order_and_comes_back_whole() {
    let video = sample(1000, 5);
    let mut ts = TransportStream::new();
    ts.push_video(0, 0, false, video.clone()).unwrap();
    let chunks: Vec<Vec<u8>> = ts
        .packets()
        .iter()
        .map(|p| match &p.payload {
            Payload::Pes(pes) => pes.data.data.clone(),
            Payload::Raw(bytes) => bytes.data.clone(),
            other => panic!("unexpected payload {:?}", other),
        })
        .collect();
    assert_eq!(chunks[0].len(), 152);
    assert_eq!(chunks[1].len(), 184);
    assert_eq!(chunks.last().unwrap().len(), (1000 - 152) % 184);
    assert_eq!(chunks.concat(), video);

    let out = ts.write_to(Vec::new()).unwrap();
    let mut back = Vec::new();
    for packet in read_back(&out).iter().skip(2) {
        match &packet.payload {
            Some(TsPayload::Pes(pes)) => back.extend_from_slice(&pes.data),
            Some(TsPayload::Raw(bytes)) => back.extend_from_slice(bytes),
            other => panic!("unexpected payload {:?}", other),
        }
    }
    assert_eq!(back, video);
}

#[test]
fn continuity_counter_runs_without_a_gap() {
    let mut ts = TransportStream::new();
    for i in 0..12u64 {
        ts.push_video(i * 50, 0, i % 5 == 0, sample(700 + 13 * i as usize, i as u8)).unwrap();
    }
    let counters: Vec<u8> =
        ts.packets().iter().map(|p| p.header.continuity_counter.value).collect();
    assert!(counters.len() > 32);
    for (i, c) in counters.iter().enumerate() {
        assert_eq!(*c as usize, i % 16);
    }
    let out = ts.write_to(Vec::new()).unwrap();
    let video: Vec<u8> = read_back(&out)
        .iter()
        .filter(|p| p.header.pid.as_u16() == 257)
        .map(|p| p.header.continuity_counter.as_u8())
        .collect();
    assert_eq!(video, counters);
}

#[test]
fn counter_goes_on_from_one_sample_to_the_next() {
    let mut ts = TransportStream::new();
    ts.push_video(0, 0, false, sample(153, 0)).unwrap();
    ts.push_video(50, 0, false, sample(10, 0)).unwrap();
    let counters: Vec<u8> =
        ts.packets().iter().map(|p| p.header.continuity_counter.value).collect();
    assert_eq!(counters, vec![0, 1, 2]);
}

#[test]
fn counter_wraps_at_sixteen() {
    let mut c = ContinuityCounter::new();
    assert_eq!(c.value, 0);
    for _ in 0..5 {
        c.increment();
    }
    assert_eq!(c.value, 5);
    for _ in 0..11 {
        c.increment();
    }
    assert_eq!(c.value, 0);
}

#[test]
fn keyframe_carries_clock_under_random_access() {
    let mut ts = TransportStream::new();
    ts.push_video(100, 20, true, sample(500, 9)).unwrap();
    let first = &ts.packets()[0];
    let field = first.adaptation_field.expect("keyframe without adaptation field");
    assert!(field.random_access_indicator);
    assert!(!field.discontinuity_indicator);
    assert!(!field.es_priority_indicator);
    assert_eq!(field.pcr.map(|c| c.ticks), Some(9000));
    match &first.payload {
        Payload::Pes(pes) => {
            assert_eq!(pes.header.stream_id, 224);
            assert_eq!(pes.header.pts.ticks, 120 * 90);
            assert_eq!(pes.header.dts.ticks, 100 * 90);
            assert_eq!(pes.pes_packet_len, 0);
        }
        other => panic!("unexpected payload {:?}", other),
    }
    assert!(ts.packets()[1..].iter().all(|p| p.adaptation_field.is_none()));

    let out = ts.write_to(Vec::new()).unwrap();
    let packets = read_back(&out);
    let field = packets[2].adaptation_field.as_ref().expect("no adaptation field in the bytes");
    assert!(field.random_access_indicator);
    assert_eq!(field.pcr.map(|c| c.as_u64()), Some(9000));
    match &packets[2].payload {
        Some(TsPayload::Pes(pes)) => {
            assert_eq!(pes.header.stream_id.as_u8(), 224);
            assert_eq!(pes.header.pts.map(|t| t.as_u64()), Some(120 * 90));
            assert_eq!(pes.header.dts.map(|t| t.as_u64()), Some(100 * 90));
        }
        other => panic!("unexpected payload {:?}", other),
    }
}

#[test]
fn other_frames_carry_no_adaptation_field() {
    let mut ts = TransportStream::new();
    ts.push_video(100, 0, false, sample(500, 9)).unwrap();
    assert!(ts.packets().iter().all(|p| p.adaptation_field.is_none()));
    let out = ts.write_to(Vec::new()).unwrap();
    let packets = read_back(&out);
    for packet in packets.iter().skip(2) {
        if let Some(field) = &packet.adaptation_field {
            assert!(!field.random_access_indicator);
            assert!(field.pcr.is_none());
        }
    }
}

#[test]
fn presentation_time_out_of_range() {
    let mut ts = TransportStream::new();
    let limit = ((1u64 << 33) - 1) / 90;
    assert!(ts.push_video(limit, 0, false, sample(10, 0)).is_ok());
    match ts.push_video(limit + 1, 0, false, sample(10, 0)) {
        Err(TsError::InvalidTimestamp(v)) => assert_eq!(v, (limit + 1) * 90),
        other => panic!("unexpected {:?}", other),
    }
    match ts.push_video(limit, 1, false, sample(10, 0)) {
        Err(TsError::InvalidTimestamp(v)) => assert_eq!(v, (limit + 1) * 90),
        other => panic!("unexpected {:?}", other),
    }
    assert_eq!(ts.packets().len(), 1);
}

#[test]
fn clock_reference_out_of_range() {
    let mut ts = TransportStream::new();
    let max = ((1u64 << 33) - 1) * 300 + 0x1FF;
    let limit = max / 90;
    match ts.push_video(limit + 1, 0, true, sample(10, 0)) {
        Err(TsError::ClockValueOutOfRange(v)) => assert_eq!(v, (limit + 1) * 90),
        other => panic!("unexpected {:?}", other),
    }
    match ts.push_video(limit, 0, true, sample(10, 0)) {
        Err(TsError::InvalidTimestamp(v)) => assert_eq!(v, limit * 90),
        other => panic!("unexpected {:?}", other),
    }
    match ts.push_video(u64::MAX, 0, false, sample(10, 0)) {
        Err(TsError::ClockValueOutOfRange(v)) => assert_eq!(v, u64::MAX),
        other => panic!("unexpected {:?}", other),
    }
    match ts.push_video(0, u64::MAX, false, sample(10, 0)) {
        Err(TsError::InvalidTimestamp(v)) => assert_eq!(v, u64::MAX),
        other => panic!("unexpected {:?}", other),
    }
    assert_eq!(ts.packets().len(), 0);
    assert_eq!(ts.write_to(Vec::new()).unwrap().len(), 376);
}

fn k_is_first(packet: &dynamic_hls::packet::TsPacket) -> bool {
    matches!(packet.payload, Payload::Pes(_))
}

fn timed(i: u64, len: usize, keyframe: bool) -> TimedSample {
    TimedSample { timestamp: i * 50, composition_time: 0, keyframe, video: sample(len, i as u8) }
}

#[test]
fn build_of_nothing_is_the_two_tables() {
    let out = build(&[]).unwrap();
    assert_eq!(out.len(), 376);
    assert_eq!(out, TransportStream::new().write_to(Vec::new()).unwrap());
}

#[test]
fn build_is_the_session_written_out() {
    let samples: Vec<TimedSample> =
        (0..40).map(|i| timed(i, 100 + 37 * i as usize, i % 10 == 0)).collect();
    let mut ts = TransportStream::new();
    for s in &samples {
        ts.push_video(s.timestamp, s.composition_time, s.keyframe, s.video.clone()).unwrap();
    }
    let expected = ts.write_to(Vec::new()).unwrap();
    assert_eq!(build(&samples).unwrap(), expected);
    assert_eq!(build(&samples).unwrap(), expected);
}

#[test]
fn build_numbers_the_video_packets_from_zero() {
    let samples: Vec<TimedSample> =
        (0..25).map(|i| timed(i, 900 - 31 * i as usize, i == 0)).collect();
    let out = build(&samples).unwrap();
    let packets = read_back(&out);
    assert_eq!(packets[0].header.pid.as_u16(), 0);
    assert_eq!(packets[1].header.pid.as_u16(), 256);
    let video: Vec<u8> = packets[2..].iter().map(|p| p.header.continuity_counter.as_u8()).collect();
    assert!(video.len() > 48);
    for (i, c) in video.iter().enumerate() {
        assert_eq!(*c as usize, i % 16);
    }
    assert!(packets[2..].iter().all(|p| p.header.pid.as_u16() == 257));
    let marked: Vec<bool> = packets[2..]
        .iter()
        .filter(|p| matches!(p.payload, Some(TsPayload::Pes(_))))
        .map(|p| p.adaptation_field.as_ref().map_or(false, |f| f.random_access_indicator))
        .collect();
    assert_eq!(marked.len(), 25);
    assert!(marked[0]);
    assert!(marked[1..].iter().all(|m| !m));
}

#[test]
fn build_stops_at_the_first_time_out_of_range() {
    let limit = ((1u64 << 33) - 1) / 90;
    let samples = vec![
        TimedSample { timestamp: 0, composition_time: 0, keyframe: true, video: sample(10, 0) },
        TimedSample { timestamp: limit, composition_time: 5, keyframe: false, video: sample(10, 0) },
        TimedSample { timestamp: u64::MAX, composition_time: 0, keyframe: false, video: sample(10, 0) },
    ];
    match build(&samples) {
        Err(TsError::InvalidTimestamp(v)) => assert_eq!(v, (limit + 5) * 90),
        other => panic!("unexpected {:?}", other),
    }
    assert!(build(&samples[..1]).is_ok());
}

#[test]
fn bytes_open_with_the_header_and_end_with_the_data() {
    let mut ts = TransportStream::new();
    for (i, len) in [0usize, 1, 152, 153, 335, 336, 337, 1000, 151].iter().enumerate() {
        ts.push_video(i as u64 * 50, 3, i % 3 == 0, sample(*len, i as u8)).unwrap();
    }
    let out = ts.write_to(Vec::new()).unwrap();
    assert_eq!(out.len(), 188 * (2 + ts.packets().len()));
    for (k, packet) in ts.packets().iter().enumerate() {
        let bytes = &out[188 * (k + 2)..188 * (k + 3)];
        assert_eq!(bytes[0], 0x47);
        assert!(bytes[1] < 128);
        assert_eq!(bytes[1] / 32 % 2, 0);
        assert_eq!((bytes[1] as u16 % 32) * 256 + bytes[2] as u16, 257);
        assert!(bytes[3] < 64);
        assert_eq!(bytes[3] % 16, packet.header.continuity_counter.value);
        assert_eq!(bytes[3] as usize % 16, k % 16);
        let data = match &packet.payload {
            Payload::Pes(pes) => &pes.data.data,
            Payload::Raw(raw) => &raw.data,
            other => panic!("unexpected payload {:?}", other),
        };
        assert_eq!(&bytes[188 - data.len()..], &data[..]);
        let has_field = bytes[3] / 32 % 2 == 1;
        match packet.adaptation_field {
            Some(field) => {
                assert!(has_field);
                assert!(bytes[4] > 0);
                assert_eq!(bytes[5] >= 128, field.discontinuity_indicator);
                assert_eq!(bytes[5] / 64 % 2 == 1, field.random_access_indicator);
                assert_eq!(bytes[5] / 32 % 2 == 1, field.es_priority_indicator);
                assert_eq!(bytes[5] / 16 % 2 == 1, field.pcr.is_some());
                assert_eq!(bytes[5] % 16, 0);
                assert_eq!(bytes[5], 0x50);
            }
            None => {
                if has_field {
                    assert!(bytes[4] == 0 || bytes[5] == 0);
                }
                assert_eq!(has_field, data.len() < 184 - if k_is_first(packet) { 19 } else { 0 });
            }
        }
    }
    for (k, pid) in [(0usize, 0u16), (1, 256)] {
        let bytes = &out[188 * k..188 * (k + 1)];
        assert_eq!(bytes[0], 0x47);
        assert_eq!((bytes[1] as u16 % 32) * 256 + bytes[2] as u16, pid);
        assert_eq!(bytes[3] % 16, 0);
        assert!(bytes[3] < 64);
    }
}

#[test]
fn keyframe_at_the_last_time_in_range_is_written() {
    let limit = ((1u64 << 33) - 1) / 90;
    let mut ts = TransportStream::new();
    ts.push_video(limit, 0, true, sample(152, 3)).unwrap();
    let out = ts.write_to(Vec::new()).unwrap();
    assert_eq!(out.len(), 3 * 188);
    let packets = read_back(&out);
    let field = packets[2].adaptation_field.as_ref().unwrap();
    assert_eq!(field.pcr.map(|c| c.as_u64()), Some(limit * 90));
    assert!(limit * 90 / 300 < (1 << 33));
}
