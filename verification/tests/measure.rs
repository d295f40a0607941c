use crlf::{CrlfStat, LineEnding};

#[test]
fn test_stats() {
    let lf_doc = b"[package]\nname = \"demo\"\nversion = \"0.1.0\"\n";
    let stat = CrlfStat::measure_file(lf_doc);
    assert_eq!(stat.is_pure(), Some(LineEnding::LF));

    let crlf_doc = b"[package]\r\nname = \"demo\"\r\nversion = \"0.1.0\"\r\n";
    let stat = CrlfStat::measure_file(crlf_doc);
    assert_eq!(stat.is_pure(), Some(LineEnding::CRLF));

    let mixed_doc = b"[package]\r\nname = \"demo\"\nversion = \"0.1.0\"\r\n";
    let stat = CrlfStat::measure_file(mixed_doc);
    assert_eq!(stat.is_pure(), None);
    assert_eq!(stat.crlf(), 2);
    assert_eq!(stat.lf(), 1);
}

#[test]
fn measure_empty_stream() {
    let stat = CrlfStat::measure_file(b"");
    assert_eq!(stat.lf(), 0);
    assert_eq!(stat.crlf(), 0);
    assert_eq!(stat.is_pure(), None);
}

#[test]
fn measure_mixed_with_fragment() {
    let stat = CrlfStat::measure_file(b"a\r\nb\nc");
    assert_eq!(stat.crlf(), 1);
    assert_eq!(stat.lf(), 2);
    assert_eq!(stat.is_pure(), None);
}

#[test]
fn fragment_counts_as_lf_line() {
    let stat = CrlfStat::measure_file(b"no terminator at all");
    assert_eq!(stat.lf(), 1);
    assert_eq!(stat.crlf(), 0);
    assert_eq!(stat.is_pure(), Some(LineEnding::LF));
}

#[test]
fn bare_carriage_return_is_not_a_terminator() {
    let stat = CrlfStat::measure_file(b"a\rb\n");
    assert_eq!(stat.lf(), 1);
    assert_eq!(stat.crlf(), 0);
    assert_eq!(stat.is_pure(), Some(LineEnding::LF));
}

#[test]
fn classification_requires_a_single_style() {
    assert_eq!(CrlfStat::measure_file(b"one\ntwo\n").is_pure(), Some(LineEnding::LF));
    assert_eq!(CrlfStat::measure_file(b"one\r\ntwo\r\n").is_pure(), Some(LineEnding::CRLF));
    assert_eq!(CrlfStat::measure_file(b"one\ntwo\r\n").is_pure(), None);
}

#[test]
fn default_counts_nothing() {
    let stat = CrlfStat::default();
    assert_eq!(stat.lf(), 0);
    assert_eq!(stat.crlf(), 0);
    assert_eq!(stat.is_pure(), None);
}

#[test]
fn ending_names() {
    assert_eq!(LineEnding::CRLF.name(), "crlf");
    assert_eq!(LineEnding::LF.name(), "lf");
}
