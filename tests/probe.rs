use vertd::probe::{
    ProbeError, bitrate_or_default, default_bitrate, frames_from_rate, parse_bitrate, parse_codec_name,
    get_fps, get_total_frames, parse_pix_fmt, parse_resolution,
};

#[test]
fn fps_bare_integer() {
    assert_eq!(get_fps("30"), 30);
    assert_eq!(get_fps("  25 \n"), 25);
}

#[test]
fn fps_fraction_rounds_to_nearest() {
    assert_eq!(get_fps("30000/1001"), 30);
    assert_eq!(get_fps("24000/1001\n"), 24);
    assert_eq!(get_fps("5/2"), 3);
    assert_eq!(get_fps("7/3"), 2);
}

#[test]
fn fps_three_fields_use_last_as_denominator() {
    assert_eq!(get_fps("24000/7/1000"), 24);
    assert_eq!(get_fps("24000/1001/2"), 12000);
}

#[test]
fn fps_defaults_to_thirty() {
    assert_eq!(get_fps(""), 30);
    assert_eq!(get_fps("\n  \n"), 30);
    assert_eq!(get_fps("N/A"), 30);
    assert_eq!(get_fps("30/0"), 30);
    assert_eq!(get_fps("1/2/3/4"), 30);
}

#[test]
fn fps_first_nonblank_line_counts() {
    assert_eq!(get_fps("\n60/1\n30/1\n"), 60);
}

#[test]
fn bitrate_tiers() {
    assert_eq!(default_bitrate(3840, 100), 30_000_000);
    assert_eq!(default_bitrate(100, 2160), 30_000_000);
    assert_eq!(default_bitrate(2560, 1440), 14_000_000);
    assert_eq!(default_bitrate(1920, 1080), 7_000_000);
    assert_eq!(default_bitrate(1280, 720), 4_000_000);
    assert_eq!(default_bitrate(640, 480), 1_500_000);
}

#[test]
fn bitrate_reported_or_default() {
    assert_eq!(parse_bitrate(" 5000000\n"), Some(5_000_000));
    assert_eq!(parse_bitrate("N/A\n"), None);
    assert_eq!(bitrate_or_default("N/A\n", 1920, 1080), 7_000_000);
    assert_eq!(bitrate_or_default("123\n", 1920, 1080), 123);
}

#[test]
fn resolution_parsing() {
    assert_eq!(parse_resolution("1920x1080\n"), Ok((1920, 1080)));
    assert_eq!(parse_resolution("\n 640x480x \n"), Ok((640, 480)));
    assert_eq!(parse_resolution(""), Err(ProbeError::Missing));
    assert_eq!(parse_resolution("1920\n"), Err(ProbeError::Malformed));
    assert_eq!(parse_resolution("widexhigh\n"), Err(ProbeError::Malformed));
}

#[test]
fn pixel_format_parsing() {
    assert_eq!(parse_pix_fmt("\n yuv420p10le \n"), Ok("yuv420p10le".to_string()));
    assert_eq!(parse_pix_fmt("  \n"), Err(ProbeError::Missing));
}

#[test]
fn frame_count_from_packets() {
    assert_eq!(get_total_frames("1440\n"), Some(1440));
    assert_eq!(get_total_frames("\n"), None);
    assert_eq!(get_total_frames("12,\n"), None);
}

#[test]
fn frame_count_from_rate_and_duration_rounds_up() {
    assert_eq!(frames_from_rate("30000/1001\n10.000000\n"), Ok(300));
    assert_eq!(frames_from_rate("25/1\n2.5\n"), Ok(63));
    assert_eq!(frames_from_rate("24/1\n10\n"), Ok(240));
    assert_eq!(frames_from_rate("\n4\n"), Err(ProbeError::Malformed));
    assert_eq!(frames_from_rate("30/1\n"), Err(ProbeError::Malformed));
    assert_eq!(frames_from_rate("30/1"), Err(ProbeError::Missing));
    assert_eq!(frames_from_rate("0/0\n10\n"), Err(ProbeError::Malformed));
    assert_eq!(frames_from_rate("30/1\nN/A\n"), Err(ProbeError::Malformed));
}

#[test]
fn codec_names() {
    assert_eq!(parse_codec_name("h264\n"), "h264");
    assert_eq!(parse_codec_name(""), "none");
}
