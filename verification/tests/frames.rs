use dynamic_hls::errors::{AppError, ErrorKind};
use dynamic_hls::frames::{has_frame_suffix, index_of_frame};
use dynamic_hls::mpegts::TsError;
use dynamic_hls::order::{compare_frames, get_frames};
use std::cmp::Ordering;

fn names(list: &[&str]) -> Vec<String> {
    list.iter().map(|s| s.to_string()).collect()
}

#[test]
fn index_is_the_number_in_the_name() {
    assert_eq!(index_of_frame("0.ts"), Some(0));
    assert_eq!(index_of_frame("17.ts"), Some(17));
    assert_eq!(index_of_frame("000123.ts"), Some(123));
    assert_eq!(index_of_frame("-5.ts"), Some(-5));
    assert_eq!(index_of_frame("+5.ts"), Some(5));
    assert_eq!(index_of_frame("42"), Some(42));
    assert_eq!(index_of_frame("4.ts2.ts"), Some(42));
    assert_eq!(index_of_frame(".ts7"), Some(7));
    assert_eq!(index_of_frame("9223372036854775807.ts"), Some(i64::MAX));
    assert_eq!(index_of_frame("-9223372036854775808.ts"), Some(i64::MIN));
    assert_eq!(index_of_frame("-0.ts"), Some(0));
}

#[test]
fn index_agrees_with_the_parser_of_the_standard_library() {
    for name in [
        "0.ts", "1.ts", "-1.ts", "+1.ts", "+-1.ts", "--1.ts", "", ".ts", "-.ts", "+.ts", "1 .ts",
        " 1.ts", "1.5.ts", "abc.ts", "12a.ts", "9223372036854775807.ts",
        "9223372036854775808.ts", "-9223372036854775808.ts", "-9223372036854775809.ts",
        "99999999999999999999999.ts", "00000000000000000000000007.ts", "1.tss", "1.t.ts", "٣.ts",
        "1.ts.ts", ".t.tss7",
    ] {
        let expected = name.replace(".ts", "").parse::<i64>().ok();
        assert_eq!(index_of_frame(name), expected, "for {:?}", name);
        assert_eq!(has_frame_suffix(name), name.ends_with(".ts"), "for {:?}", name);
    }
}

#[test]
fn names_without_a_number_have_no_index() {
    assert_eq!(index_of_frame(".ts"), None);
    assert_eq!(index_of_frame("frame.ts"), None);
    assert_eq!(index_of_frame("-.ts"), None);
    assert_eq!(index_of_frame("9223372036854775808.ts"), None);
    assert_eq!(index_of_frame("1_000.ts"), None);
}

#[test]
fn frames_come_out_in_the_order_of_their_numbers() {
    let sorted = get_frames(names(&[
        "10.ts", "9.ts", "100.ts", "notes.txt", "1.ts", "0.ts", "2.ts", "playlist.m3u8", "11.ts",
    ]))
    .unwrap();
    assert_eq!(sorted, names(&["0.ts", "1.ts", "2.ts", "9.ts", "10.ts", "11.ts", "100.ts"]));
}

#[test]
fn names_with_the_same_number_keep_their_order() {
    let sorted =
        get_frames(names(&["2.ts", "01.ts", "1.ts", "+1.ts", "0.ts", "001.ts"])).unwrap();
    assert_eq!(sorted, names(&["0.ts", "01.ts", "1.ts", "+1.ts", "001.ts", "2.ts"]));
}

#[test]
fn no_frames_is_no_error() {
    assert_eq!(get_frames(Vec::new()).unwrap(), Vec::<String>::new());
    assert_eq!(get_frames(names(&["a.txt", "b"])).unwrap(), Vec::<String>::new());
}

#[test]
fn frame_without_a_number_is_an_error() {
    let err = get_frames(names(&["1.ts", "x.txt", "two.ts", "3.ts", "four.ts"])).unwrap_err();
    assert_eq!(err.name, "two.ts");
}

#[test]
fn comparison_goes_by_number() {
    let s = |x: &str| x.to_string();
    assert_eq!(compare_frames(&s("9.ts"), &s("10.ts")), Ordering::Less);
    assert_eq!(compare_frames(&s("10.ts"), &s("9.ts")), Ordering::Greater);
    assert_eq!(compare_frames(&s("07.ts"), &s("7.ts")), Ordering::Equal);
    assert_eq!(compare_frames(&s("x.ts"), &s("-7.ts")), Ordering::Less);
    assert_eq!(compare_frames(&s("x.ts"), &s("y.ts")), Ordering::Equal);
    assert_eq!(compare_frames(&s("1.ts"), &s("y.ts")), Ordering::Greater);
}

#[test]
fn messages_of_transport_stream_errors() {
    assert_eq!(TsError::WriteError.message(), "Failed to write TS file");
    assert_eq!(TsError::InvalidPacketId(8192).message(), "Packet ID 8192 is not valid");
    assert_eq!(TsError::InvalidTimestamp(8589934620).message(), "Invalid timestamp 8589934620");
    assert_eq!(TsError::PayloadTooBig.message(), "Packet payload exceeded packet limit");
    assert_eq!(
        TsError::ClockValueOutOfRange(u64::MAX).message(),
        "Clock reference value of 18446744073709551615 exceeds maximum"
    );
    assert_eq!(TsError::InvalidTimestamp(0).message(), "Invalid timestamp 0");
    let io = std::io::Error::new(std::io::ErrorKind::Other, "disk");
    assert_eq!(TsError::FileCreationFailed(io).message(), "Failed to create TS file");
    let outside = mpeg2ts::ts::Pid::new(0x2000).unwrap_err();
    let text = TsError::Mpeg2TsError(outside.clone()).message();
    assert_eq!(text, format!("Mpeg2TsError: {}", outside));
}

#[test]
fn messages_and_codes_of_request_errors() {
    let e = AppError::from(TsError::InvalidTimestamp(77));
    assert_eq!(e.message(), "TsError: Invalid timestamp 77");
    let body = e.error_code();
    assert_eq!(body.code, 40004);
    assert_eq!(body.message, "TsError: Invalid timestamp 77");

    let e = AppError::from(std::io::Error::new(std::io::ErrorKind::NotFound, "no such stream"));
    assert_eq!(e.message(), "IoError: no such stream");
    assert_eq!(e.error_code().code, 40002);

    let e = AppError::from(mp4::Error::TrakNotFound(3));
    assert_eq!(e.message(), "Mp4Error: trak[3] not found");
    assert_eq!(e.error_code().code, 40003);

    let json = serde_json::from_str::<u8>("x").unwrap_err();
    let words = json.to_string();
    let e = AppError::from(json);
    assert_eq!(e.message(), format!("SerdeJsonError: {}", words));
    assert_eq!(e.error_code().code, 40001);
    assert!(matches!(*e.0, ErrorKind::SerdeJsonError(_)));
}

#[test]
fn each_name_stands_behind_the_smaller_and_the_earlier_equal_ones() {
    let frames = names(&[
        "5.ts", "05.ts", "3.ts", "-1.ts", "5.ts.ts", "+3.ts", "12.ts", "0.ts", "003.ts", "-01.ts",
    ]);
    let keys: Vec<i64> = frames.iter().map(|n| index_of_frame(n).unwrap()).collect();
    let sorted = get_frames(frames.clone()).unwrap();
    assert_eq!(sorted.len(), frames.len());
    for i in 0..frames.len() {
        let smaller = keys.iter().filter(|k| **k < keys[i]).count();
        let equal_before = keys[..i].iter().filter(|k| **k == keys[i]).count();
        assert_eq!(sorted[smaller + equal_before], frames[i]);
    }
}

#[test]
fn outside_errors_become_transport_stream_errors() {
    let io = std::io::Error::new(std::io::ErrorKind::Other, "disk");
    assert!(matches!(TsError::from(io), TsError::FileCreationFailed(_)));
    let outside = mpeg2ts::ts::Pid::new(0x2000).unwrap_err();
    assert!(matches!(TsError::from(outside), TsError::Mpeg2TsError(_)));
}
