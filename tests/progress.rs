use vertd::format::CompressorFormat;
use vertd::http::{CorsConfig, parse_cors, port_is_numeric};
use vertd::progress::{
    PassState, ProgressUpdate, diagnostic_update, first_pass, parse_progress_line, progress_update, relay, second_pass,
    video_budget_kb,
};

#[test]
fn progress_lines() {
    assert_eq!(parse_progress_line("frame=42"), Some(42));
    assert_eq!(parse_progress_line(" frame = 7 "), Some(7));
    assert_eq!(parse_progress_line("fps=29.97"), None);
    assert_eq!(parse_progress_line("frame=N/A"), None);
    assert_eq!(parse_progress_line("progress=end"), None);
    assert_eq!(parse_progress_line("no separator"), None);
    assert!(matches!(progress_update("frame=5"), Some(ProgressUpdate::Frame(5))));
    assert!(progress_update("out_time=00:00:01").is_none());
    assert!(matches!(diagnostic_update("oops".to_string()), ProgressUpdate::Error(ref m) if m == "oops"));
}

#[test]
fn second_pass_frames_follow_the_first() {
    let f1 = 240u64;
    let seen: Vec<u64> = (1..=5u64)
        .map(|n| match relay(&PassState::Second { first_total: f1 }, ProgressUpdate::Frame(n)) {
            ProgressUpdate::Frame(m) => m,
            _ => panic!("frame expected"),
        })
        .collect();
    assert_eq!(seen, vec![241, 242, 243, 244, 245]);
    assert!(seen.windows(2).all(|w| w[0] + 1 == w[1]));
    assert!(matches!(relay(&PassState::First, ProgressUpdate::Frame(9)), ProgressUpdate::Frame(9)));
    assert!(matches!(
        relay(&PassState::Second { first_total: 1 }, ProgressUpdate::Error("e".to_string())),
        ProgressUpdate::Error(ref m) if m == "e"
    ));
    assert!(matches!(
        relay(&PassState::Second { first_total: u64::MAX }, ProgressUpdate::Frame(2)),
        ProgressUpdate::Frame(u64::MAX)
    ));
}

#[test]
fn audio_budget_is_reserved() {
    assert_eq!(video_budget_kb(1000), Some(872));
    assert_eq!(video_budget_kb(129), Some(1));
    assert_eq!(video_budget_kb(128), Some(0));
    assert_eq!(video_budget_kb(127), None);
    assert_eq!(video_budget_kb(0), None);
}

#[test]
fn pass_arguments() {
    let id: u128 = 0x550e8400_e29b_41d4_a716_446655440000;
    let t = "550e8400-e29b-41d4-a716-446655440000";
    let a = first_pass(id, CompressorFormat::MP4, "libx264", 872, "/dev/null");
    assert_eq!(
        a,
        vec![
            "-y".to_string(), "-i".to_string(), format!("./input/{t}.mp4"), "-c:v".to_string(), "libx264".to_string(),
            "-b:v".to_string(), "872k".to_string(), "-pass".to_string(), "1".to_string(), "-hide_banner".to_string(),
            "-loglevel".to_string(), "error".to_string(), "-progress".to_string(), "pipe:1".to_string(),
            "-passlogfile".to_string(), format!("./output/{t}"), "-an".to_string(), "-f".to_string(),
            "null".to_string(), "/dev/null".to_string(),
        ]
    );
    let b = second_pass(id, CompressorFormat::MP4, "h264_nvenc", 872);
    assert_eq!(b[8], "2");
    assert_eq!(b[4], "h264_nvenc");
    assert_eq!(
        b[16..].to_vec(),
        vec!["-c:a".to_string(), "aac".to_string(), "-b:a".to_string(), "128k".to_string(), format!("./output/{t}.mp4")]
    );
}

#[test]
fn cors_settings() {
    assert!(matches!(parse_cors(""), CorsConfig::Any));
    assert!(matches!(parse_cors("  *  "), CorsConfig::Any));
    match parse_cors(" https://a.example , ,https://b.example,") {
        CorsConfig::Specific(v) => assert_eq!(v, vec!["https://a.example", "https://b.example"]),
        CorsConfig::Any => panic!("expected a list"),
    }
}

#[test]
fn port_setting() {
    assert!(port_is_numeric("24153"));
    assert!(port_is_numeric(""));
    assert!(!port_is_numeric("80a"));
}
