use proteus::hls::{leading_number_text, parse_hls_manifest};

fn duration_of(durations: &[String]) -> f64 {
    durations.iter().map(|d| d.parse::<f64>().unwrap_or(0.0)).sum()
}

#[test]
fn parses_init_uri_and_segments_in_order() {
    let manifest = "#EXTM3U\n#EXT-X-MAP:URI=\"init.m4s\"\n#EXTINF:6.006,\nseg_0.m4s\n#EXTINF:2.002,\nseg_1.m4s\n#EXT-X-ENDLIST\n";
    let parsed = parse_hls_manifest(manifest).unwrap();
    assert_eq!(parsed.init_uri, "init.m4s");
    assert_eq!(parsed.segment_uris, vec!["seg_0.m4s", "seg_1.m4s"]);
    assert!((duration_of(&parsed.segment_durations) - 8.008).abs() < 1e-9);
}

#[test]
fn missing_init_or_segments_is_an_error() {
    assert!(parse_hls_manifest("#EXTM3U\n#EXTINF:6.006,\nseg_0.m4s\n").is_err());
    assert!(parse_hls_manifest("#EXTM3U\n#EXT-X-MAP:URI=\"init.m4s\"\n").is_err());
}

#[test]
fn parse_leading_f64_stops_at_trailing_comma() {
    let text = leading_number_text("6.006,");
    assert!((text.parse::<f64>().unwrap_or(0.0) - 6.006).abs() < 1e-9);
}

#[test]
fn leading_number_text_is_the_longest_decimal_prefix() {
    assert_eq!(leading_number_text("6.006,"), "6.006");
    assert_eq!(leading_number_text("1.5.2,"), "1.5");
    assert_eq!(leading_number_text("."), "");
    assert_eq!(leading_number_text("-"), "");
    assert_eq!(leading_number_text("+-1"), "");
    assert_eq!(leading_number_text("1."), "1.");
    assert_eq!(leading_number_text(".5x"), ".5");
    assert_eq!(leading_number_text("12-3"), "12");
    assert_eq!(leading_number_text("-1.5e3"), "-1.5");
    assert_eq!(leading_number_text(",9"), "");
    assert_eq!(leading_number_text("+42"), "+42");
}

#[test]
fn parse_leading_number_reads_like_parse_float() {
    assert_eq!(leading_number_text("1.5.2,").parse::<f64>().unwrap_or(0.0), 1.5);
    assert_eq!(leading_number_text("abc").parse::<f64>().unwrap_or(0.0), 0.0);
}

#[test]
fn manifest_error_names_what_is_missing() {
    let err = parse_hls_manifest("#EXTM3U\n").unwrap_err();
    assert!(!err.is_empty());
    assert_eq!(err, parse_hls_manifest("#EXTM3U\n#EXTINF:1,\nseg.m4s\n").unwrap_err());
}

#[test]
fn blank_lines_and_crlf_are_tolerated() {
    let manifest = "#EXTM3U\r\n\r\n#EXT-X-MAP:URI=\"a/init.mp4\"\r\n#EXTINF:1.5,title\r\n  seg_a.m4s  \r\n";
    let parsed = parse_hls_manifest(manifest).unwrap();
    assert_eq!(parsed.init_uri, "a/init.mp4");
    assert_eq!(parsed.segment_uris, vec!["seg_a.m4s"]);
    assert_eq!(parsed.segment_durations, vec!["1.5"]);
}
