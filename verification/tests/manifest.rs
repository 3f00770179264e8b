use dynamic_hls::manifest::{
    generate, ManifestEntry, SegmentDescriptor, VideoType, FRAME_CADENCE_MS, SEGMENT_TARGET_MS,
};
use dynamic_hls::routes::{get_playlist, segment_url, PLAYLIST_CONTENT_TYPE};
use dynamic_hls::window::resolve;

fn segment(offset_ms: usize, length_ms: usize) -> ManifestEntry {
    ManifestEntry::Segment(SegmentDescriptor { offset_ms, length_ms, video_type: VideoType::MpegTs })
}

fn segments(entries: &[ManifestEntry]) -> Vec<SegmentDescriptor> {
    entries
        .iter()
        .filter_map(|e| match e {
            ManifestEntry::Segment(s) => Some(*s),
            ManifestEntry::EndOfList => None,
        })
        .collect()
}

#[test]
fn six_seconds_make_a_full_and_a_short_segment() {
    assert_eq!(FRAME_CADENCE_MS, 50);
    assert_eq!(SEGMENT_TARGET_MS, 5000);
    let entries = generate(120, 5000);
    assert_eq!(entries, vec![segment(0, 5000), segment(5000, 1000), ManifestEntry::EndOfList]);
}

#[test]
fn empty_sequence_has_only_the_end_marker() {
    assert_eq!(generate(0, 5000), vec![ManifestEntry::EndOfList]);
    assert_eq!(generate(0, 0), vec![ManifestEntry::EndOfList]);
    assert_eq!(generate(0, 70), vec![ManifestEntry::EndOfList]);
}

#[test]
fn exact_multiples_have_no_short_segment() {
    assert_eq!(generate(100, 5000), vec![segment(0, 5000), ManifestEntry::EndOfList]);
    assert_eq!(
        generate(200, 5000),
        vec![segment(0, 5000), segment(5000, 5000), ManifestEntry::EndOfList]
    );
    assert_eq!(
        generate(3, 50),
        vec![segment(0, 50), segment(50, 50), segment(100, 50), ManifestEntry::EndOfList]
    );
    assert_eq!(generate(1, 5000), vec![segment(0, 50), ManifestEntry::EndOfList]);
    assert_eq!(
        generate(101, 5000),
        vec![segment(0, 5000), segment(5000, 50), ManifestEntry::EndOfList]
    );
}

#[test]
fn target_off_the_cadence_is_never_met() {
    assert_eq!(generate(120, 5025), vec![segment(0, 6000), ManifestEntry::EndOfList]);
    assert_eq!(generate(7, 30), vec![segment(0, 350), ManifestEntry::EndOfList]);
}

#[test]
fn target_of_zero_is_met_once() {
    assert_eq!(generate(4, 0), vec![segment(0, 0), segment(0, 200), ManifestEntry::EndOfList]);
}

#[test]
fn lengths_add_up_to_the_whole_sequence() {
    for len in [0usize, 1, 2, 99, 100, 101, 120, 199, 200, 201, 1234] {
        for target in [0usize, 50, 100, 150, 1000, 5000, 5025, 7, 100_000] {
            let entries = generate(len, target);
            assert_eq!(entries.last(), Some(&ManifestEntry::EndOfList));
            let segs = segments(&entries);
            assert_eq!(segs.len() + 1, entries.len());
            let total: usize = segs.iter().map(|s| s.length_ms).sum();
            assert_eq!(total, len * 50, "len {} target {}", len, target);
            if let Some((_, rest)) = segs.split_last() {
                assert!(rest.iter().all(|s| s.length_ms == target));
            }
            let mut offset = 0;
            for s in &segs {
                assert_eq!(s.offset_ms, offset);
                offset += s.length_ms;
            }
        }
    }
}

#[test]
fn windows_of_the_segments_tile_the_sequence() {
    for len in [1usize, 99, 100, 101, 250] {
        for target in [0usize, 50, 5000, 5025] {
            let sequence: Vec<usize> = (0..len).collect();
            let mut seen = Vec::new();
            for s in segments(&generate(len, target)) {
                let window = resolve(&sequence, s.offset_ms, s.length_ms);
                assert_eq!(window.len() * 50, s.length_ms);
                seen.extend_from_slice(window);
            }
            assert_eq!(seen, sequence);
        }
    }
}

#[test]
fn window_is_cut_at_the_end_of_the_sequence() {
    let sequence: Vec<u32> = (0..120).collect();
    assert_eq!(resolve(&sequence, 0, 5000), &sequence[0..100]);
    assert_eq!(resolve(&sequence, 5000, 5000), &sequence[100..120]);
    assert_eq!(resolve(&sequence, 5000, 1000), &sequence[100..120]);
    assert_eq!(resolve(&sequence, 6000, 5000).len(), 0);
    assert_eq!(resolve(&sequence, 1_000_000, 5000).len(), 0);
    assert_eq!(resolve(&sequence, usize::MAX, usize::MAX).len(), 0);
    assert_eq!(resolve(&sequence, 0, usize::MAX), &sequence[..]);
    assert_eq!(resolve(&sequence, 0, 0).len(), 0);
}

#[test]
fn window_bounds_round_down() {
    let sequence: Vec<u32> = (0..10).collect();
    assert_eq!(resolve(&sequence, 49, 99), &sequence[0..1]);
    assert_eq!(resolve(&sequence, 50, 100), &sequence[1..3]);
    assert_eq!(resolve(&sequence, 149, 49).len(), 0);
    assert_eq!(resolve(&sequence, 449, 1000), &sequence[8..10]);
}

#[test]
fn window_length_formula() {
    let sequence: Vec<u32> = (0..37).collect();
    for offset in [0usize, 10, 50, 700, 1800, 1849, 1850, 1900, 5000] {
        for length in [0usize, 49, 50, 500, 1850, 10_000] {
            let asked = length / 50;
            let left = sequence.len().saturating_sub(offset / 50);
            assert_eq!(resolve(&sequence, offset, length).len(), asked.min(left));
        }
    }
}

#[test]
fn playlist_of_six_seconds() {
    let text = get_playlist("log7", 120);
    let expected = "#EXTM3U\n#EXT-X-VERSION:3\n#EXT-X-TARGETDURATION:10\n#EXT-X-MEDIA-SEQUENCE:0\
#EXTINF:5.000,\nhttp://127.0.0.1:18080/v1/segment/log7?offset=0&length=5000\n\
#EXTINF:1.000,\nhttp://127.0.0.1:18080/v1/segment/log7?offset=5000&length=1000\n\
#EXT-X-ENDLIST";
    assert_eq!(text, expected);
    assert_eq!(PLAYLIST_CONTENT_TYPE, "application/vnd.apple.mpegurl");
}

#[test]
fn playlist_of_nothing() {
    assert_eq!(
        get_playlist("x", 0),
        "#EXTM3U\n#EXT-X-VERSION:3\n#EXT-X-TARGETDURATION:10\n#EXT-X-MEDIA-SEQUENCE:0#EXT-X-ENDLIST"
    );
}

#[test]
fn playlist_advertises_the_duration_to_the_millisecond() {
    let text = get_playlist("a/b", 2011);
    assert!(text.contains("#EXTINF:5.000,\nhttp://127.0.0.1:18080/v1/segment/a/b?offset=95000&length=5000\n"));
    assert!(text.ends_with(
        "#EXTINF:0.550,\nhttp://127.0.0.1:18080/v1/segment/a/b?offset=100000&length=550\n#EXT-X-ENDLIST"
    ));
    assert_eq!(text.matches("#EXTINF:").count(), 21);
}

#[test]
fn address_names_the_format_unless_it_is_the_default() {
    let mut segment = SegmentDescriptor { offset_ms: 250, length_ms: 1000, video_type: VideoType::MpegTs };
    assert_eq!(segment_url("cam", &segment), "http://127.0.0.1:18080/v1/segment/cam?offset=250&length=1000");
    segment.video_type = VideoType::Mp4;
    assert_eq!(
        segment_url("cam", &segment),
        "http://127.0.0.1:18080/v1/segment/cam?offset=250&length=1000&video_type=Mp4"
    );
    segment.video_type = VideoType::Raw;
    assert_eq!(
        segment_url("cam", &segment),
        "http://127.0.0.1:18080/v1/segment/cam?offset=250&length=1000&video_type=Raw"
    );
}

#[test]
fn playlist_of_six_and_a_half_seconds() {
    let text = get_playlist("cam", 130);
    let expected = "#EXTM3U\n#EXT-X-VERSION:3\n#EXT-X-TARGETDURATION:10\n#EXT-X-MEDIA-SEQUENCE:0\
#EXTINF:5.000,\nhttp://127.0.0.1:18080/v1/segment/cam?offset=0&length=5000\n\
#EXTINF:1.500,\nhttp://127.0.0.1:18080/v1/segment/cam?offset=5000&length=1500\n\
#EXT-X-ENDLIST";
    assert_eq!(text, expected);
    assert_eq!(get_playlist("cam", 1).matches("#EXTINF:0.050,").count(), 1);
    assert_eq!(get_playlist("cam", 21).matches("#EXTINF:1.050,").count(), 1);
}

#[test]
fn playlist_has_a_segment_for_every_hundred_access_units() {
    for len in [0usize, 1, 99, 100, 101, 130, 200, 201, 12345] {
        let segs = segments(&generate(len, SEGMENT_TARGET_MS));
        assert_eq!(segs.len(), (len + 99) / 100);
        if let Some((last, rest)) = segs.split_last() {
            assert!(rest.iter().all(|s| s.length_ms == 5000));
            assert!(0 < last.length_ms && last.length_ms <= 5000);
            assert_eq!(last.length_ms, 50 * (len - 100 * rest.len()));
        }
    }
}
