use crlf::{convert_to, CrlfStat, LineEnding};

#[test]
fn test_convert() {
    let lf_doc = b"[package]\nname = \"demo\"\n".to_vec();
    let crlf_doc = b"[package]\r\nname = \"demo\"\r\n".to_vec();
    let mixed_doc = b"[package]\r\nname = \"demo\"\n".to_vec();

    assert_eq!(convert_to(&lf_doc, LineEnding::LF), lf_doc);
    assert_eq!(convert_to(&lf_doc, LineEnding::CRLF), crlf_doc);
    assert_eq!(convert_to(&crlf_doc, LineEnding::LF), lf_doc);
    assert_eq!(convert_to(&crlf_doc, LineEnding::CRLF), crlf_doc);
    assert_eq!(convert_to(&mixed_doc, LineEnding::LF), lf_doc);
    assert_eq!(convert_to(&mixed_doc, LineEnding::CRLF), crlf_doc);
}

#[test]
fn convert_empty_is_empty() {
    assert_eq!(convert_to(b"", LineEnding::LF), Vec::<u8>::new());
    assert_eq!(convert_to(b"", LineEnding::CRLF), Vec::<u8>::new());
}

#[test]
fn convert_mixed_to_crlf() {
    assert_eq!(convert_to(b"a\nb\r\n", LineEnding::CRLF), b"a\r\nb\r\n".to_vec());
}

#[test]
fn convert_mixed_fragment_to_lf() {
    assert_eq!(convert_to(b"a\r\nb\nc", LineEnding::LF), b"a\nb\nc".to_vec());
}

#[test]
fn no_terminator_is_invented() {
    assert_eq!(convert_to(b"abc", LineEnding::CRLF), b"abc".to_vec());
    assert_eq!(convert_to(b"abc", LineEnding::LF), b"abc".to_vec());
}

#[test]
fn only_one_carriage_return_is_stripped() {
    assert_eq!(convert_to(b"a\r\r\n", LineEnding::LF), b"a\r\n".to_vec());
    assert_eq!(convert_to(b"a\r\r\n", LineEnding::CRLF), b"a\r\r\n".to_vec());
}

#[test]
fn convert_is_idempotent() {
    let src = b"a\r\nb\nc";
    for ending in [LineEnding::LF, LineEnding::CRLF] {
        let once = convert_to(src, ending);
        let twice = convert_to(&once, ending);
        assert_eq!(twice, once);
    }
}

#[test]
fn round_trip_through_crlf() {
    let src = b"one\r\ntwo\nthree\r\nfour";
    let via_crlf = convert_to(&convert_to(src, LineEnding::CRLF), LineEnding::LF);
    assert_eq!(via_crlf, convert_to(src, LineEnding::LF));
}

#[test]
fn converted_stream_measures_pure() {
    let src = b"one\r\ntwo\nthree\n";
    let as_crlf = convert_to(src, LineEnding::CRLF);
    assert_eq!(CrlfStat::measure_file(&as_crlf).is_pure(), Some(LineEnding::CRLF));
    let as_lf = convert_to(src, LineEnding::LF);
    assert_eq!(CrlfStat::measure_file(&as_lf).is_pure(), Some(LineEnding::LF));
}

#[test]
fn content_bytes_pass_through_unchanged() {
    let src = b"\x00binary \xff data\r\nmore \x01 bytes\n";
    assert_eq!(
        convert_to(src, LineEnding::LF),
        b"\x00binary \xff data\nmore \x01 bytes\n".to_vec(),
    );
    assert_eq!(
        convert_to(src, LineEnding::CRLF),
        b"\x00binary \xff data\r\nmore \x01 bytes\r\n".to_vec(),
    );
}
