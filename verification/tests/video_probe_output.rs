use proteus::video_probe::{parse_probe_output, parse_u32, rgba_frame_len, ParseIntFailure, ProbeError};

fn chars(s: &str) -> Vec<char> {
    s.chars().collect()
}

#[test]
fn probe_output_reads_width_and_height() {
    assert_eq!(parse_probe_output("1920,1080\n"), Ok((1920, 1080)));
    assert_eq!(parse_probe_output("  640,360  "), Ok((640, 360)));
    assert_eq!(parse_probe_output("640,360,extra"), Ok((640, 360)));
}

#[test]
fn probe_output_errors_name_the_bad_field() {
    assert_eq!(parse_probe_output(""), Err(ProbeError::BadWidth(ParseIntFailure::Empty)));
    assert_eq!(parse_probe_output("1920"), Err(ProbeError::NoHeight));
    assert_eq!(parse_probe_output("1920,"), Err(ProbeError::BadHeight(ParseIntFailure::Empty)));
    assert_eq!(parse_probe_output("x,1"), Err(ProbeError::BadWidth(ParseIntFailure::InvalidDigit)));
    assert_eq!(
        parse_probe_output("1,99999999999"),
        Err(ProbeError::BadHeight(ParseIntFailure::PosOverflow))
    );
    // The width is read before the height is looked for.
    assert_eq!(parse_probe_output("abc"), Err(ProbeError::BadWidth(ParseIntFailure::InvalidDigit)));
}

#[test]
fn probe_error_messages() {
    assert_eq!(ProbeError::NoHeight.message(), "ffprobe: no height in output");
    assert_eq!(
        ProbeError::BadWidth(ParseIntFailure::InvalidDigit).message(),
        format!("ffprobe: bad width: {}", "x".parse::<u32>().unwrap_err())
    );
    assert_eq!(
        ProbeError::BadHeight(ParseIntFailure::Empty).message(),
        format!("ffprobe: bad height: {}", "".parse::<u32>().unwrap_err())
    );
    assert_eq!(
        ProbeError::BadHeight(ParseIntFailure::PosOverflow).message(),
        format!("ffprobe: bad height: {}", "99999999999".parse::<u32>().unwrap_err())
    );
}

#[test]
fn parse_u32_agrees_with_std() {
    for s in ["0", "42", "+7", "4294967295", "4294967296", "", "+", "-", "-1", "1 ", " 1", "00012", "1x"] {
        let ours = parse_u32(&chars(s));
        let std = s.parse::<u32>();
        match (ours, std) {
            (Ok(a), Ok(b)) => assert_eq!(a, b, "{s:?}"),
            (Err(k), Err(e)) => {
                let kind = match e.kind() {
                    std::num::IntErrorKind::Empty => ParseIntFailure::Empty,
                    std::num::IntErrorKind::InvalidDigit => ParseIntFailure::InvalidDigit,
                    std::num::IntErrorKind::PosOverflow => ParseIntFailure::PosOverflow,
                    other => panic!("unexpected kind {other:?}"),
                };
                assert_eq!(k, kind, "{s:?}");
            }
            (a, b) => panic!("{s:?}: ours {a:?}, std {b:?}"),
        }
    }
}

#[test]
fn rgba_frame_len_is_four_bytes_a_pixel() {
    assert_eq!(rgba_frame_len(1920, 1080), 1920 * 1080 * 4);
    assert_eq!(rgba_frame_len(0, 7), 0);
}
