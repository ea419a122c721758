use vertd::download::{DownloadError, Transfer, authorize_download};
use vertd::format::{CompressorFormat, ConversionSpeed, ConverterFormat, JobType};
use vertd::ident::{id_text, mint_token, parse_id};
use vertd::job::{CompressionJob, ConversionJob, Job, JobState, ProbeCache, input_path, output_path, pass_log_path};
use vertd::progress::{PassState, ProgressUpdate};
use vertd::registry::{AppState, Registry};
use vertd::session::{ClientMessage, Launch, Phase, ServerMessage, Session};
use vertd::upload::{UploadError, create_job, extension_of};

fn conversion_job(token: &str, from: &str) -> ConversionJob {
    ConversionJob::new(token.to_string(), from.to_string())
}

#[test]
fn token_is_128_lowercase_hex_digits() {
    let t = mint_token();
    assert_eq!(t.len(), 128);
    assert!(t.chars().all(|c| c.is_ascii_digit() || ('a'..='f').contains(&c)));
    assert_ne!(t, mint_token());
}

#[test]
fn token_text_of_given_bytes() {
    assert_eq!(vertd::ident::token_from_bytes(&vec![0x00, 0xab, 0x1f]), "00ab1f");
}

#[test]
fn identifier_text_round_trips() {
    let id: u128 = 0x550e8400_e29b_41d4_a716_446655440000;
    assert_eq!(id_text(id), "550e8400-e29b-41d4-a716-446655440000");
    assert_eq!(parse_id("550e8400-e29b-41d4-a716-446655440000"), Some(id));
    assert_eq!(parse_id("not-an-id"), None);
}

#[test]
fn file_naming_convention() {
    let id: u128 = 0x550e8400_e29b_41d4_a716_446655440000;
    assert_eq!(input_path(id, "mkv"), "input/550e8400-e29b-41d4-a716-446655440000.mkv");
    assert_eq!(output_path(id, "mp4"), "output/550e8400-e29b-41d4-a716-446655440000.mp4");
    assert_eq!(pass_log_path(id), "output/550e8400-e29b-41d4-a716-446655440000");
}

#[test]
fn probe_results_are_computed_once() {
    let mut cache = ProbeCache::new();
    assert_eq!(cache.fps("25/1\n"), 25);
    assert_eq!(cache.fps("60/1\n"), 25);
    assert_eq!(cache.bitrate("N/A", 1920, 1080), 7_000_000);
    assert_eq!(cache.bitrate("99", 1920, 1080), 7_000_000);
    assert_eq!(cache.total_frames("N/A\n", "nonsense"), Err(vertd::probe::ProbeError::Missing));
    assert_eq!(cache.cached_total_frames(), None);
    assert_eq!(cache.total_frames("N/A\n", "24/1\n2\n"), Ok(48));
    assert_eq!(cache.total_frames("1000\n", ""), Ok(48));
    assert_eq!(cache.cached_fps(), Some(25));
}

#[test]
fn job_memo_through_variants() {
    let mut j = conversion_job("t", "mkv");
    assert_eq!(j.bitrate_and_fps("8000\n", 10, 10, "30000/1001"), (8000, 30));
    assert_eq!(j.bitrate_and_fps("9000\n", 10, 10, "60"), (8000, 30));
    let mut c = CompressionJob::new("t".to_string(), CompressorFormat::MP4);
    assert_eq!(c.total_frames("1440\n", ""), Ok(1440));
    assert_eq!(c.fps("24"), 24);
}

#[test]
fn job_state_queries() {
    let mut j = conversion_job("t", "mkv");
    assert_eq!(j.state, JobState::Processing);
    assert!(j.output_path().is_none());
    j.to = Some("mp4".to_string());
    let job = Job::Conversion(j);
    assert!(job.processing() && !job.completed() && !job.errored());
    let p = job.output_path().unwrap();
    assert!(p.starts_with("output/") && p.ends_with(".mp4") && p.len() == "output/".len() + 36 + 4);
}

#[test]
fn registry_insert_get_remove() {
    let mut reg = Registry::new();
    let a = conversion_job("alpha", "mkv");
    let b = CompressionJob::new("beta".to_string(), CompressorFormat::MP4);
    let (ida, idb) = (a.id, b.id);
    reg.insert(Job::Conversion(a));
    reg.insert(Job::Compression(b));
    assert_eq!(reg.len(), 2);
    assert!(reg.contains(ida));
    assert_eq!(reg.get(idb).map(|j| j.id()), Some(idb));
    assert_eq!(reg.find_by_auth("beta").map(|j| j.id()), Some(idb));
    assert!(reg.find_by_auth("gamma").is_none());
    let mut again = reg.get(ida).unwrap();
    if let Job::Conversion(ref mut j) = again {
        j.to = Some("gif".to_string());
    }
    reg.insert(again);
    assert_eq!(reg.len(), 2);
    assert!(reg.get(ida).unwrap().output_path().unwrap().ends_with(".gif"));
    assert_eq!(reg.remove(ida).map(|j| j.id()), Some(ida));
    assert!(reg.remove(ida).is_none());
    assert_eq!(reg.len(), 1);
}

#[test]
fn register_refuses_a_taken_identifier() {
    let mut reg = Registry::new();
    let a = conversion_job("alpha", "mkv");
    let mut b = conversion_job("beta", "avi");
    b.id = a.id;
    assert!(reg.register(Job::Conversion(a)).is_ok());
    match reg.register(Job::Conversion(b)) {
        Err(Job::Conversion(j)) => assert_eq!(j.auth, "beta"),
        _ => panic!("expected the clash to be refused"),
    }
    assert_eq!(reg.len(), 1);
    assert_eq!(reg.find_by_auth("alpha").map(|j| j.id()).is_some(), true);
}

#[test]
fn download_errors() {
    let mut reg = Registry::new();
    let j = conversion_job("secret", "mkv");
    let id = id_text(j.id);
    reg.insert(Job::Conversion(j));
    assert!(matches!(authorize_download(&mut reg, "nope", "secret", &None), Err(DownloadError::JobNotFound)));
    assert!(matches!(
        authorize_download(&mut reg, "550e8400-e29b-41d4-a716-446655440000", "secret", &None),
        Err(DownloadError::JobNotFound)
    ));
    assert!(matches!(authorize_download(&mut reg, &id, "wrong", &None), Err(DownloadError::InvalidToken)));
    assert!(matches!(authorize_download(&mut reg, &id, "secret", &None), Err(DownloadError::IncompleteHandshake)));
    assert_eq!(reg.len(), 1);
    assert_eq!(DownloadError::JobNotFound.status_code(), 404);
    assert_eq!(DownloadError::IncompleteHandshake.status_code(), 400);
    assert_eq!(DownloadError::InvalidToken.status_code(), 401);
    let fs = DownloadError::FilesystemError("disk".to_string());
    assert_eq!(fs.status_code(), 500);
    assert_eq!(fs.message(), "filesystem error: disk");
    assert_eq!(DownloadError::InvalidToken.message(), "invalid token");
}

#[test]
fn download_with_token_consumes_job() {
    let mut reg = Registry::new();
    let mut j = conversion_job("secret", "mkv");
    j.to = Some("mp4".to_string());
    let id = id_text(j.id);
    reg.insert(Job::Conversion(j));
    let path = authorize_download(&mut reg, &id, "secret", &None).ok().unwrap();
    assert_eq!(path, format!("output/{}.mp4", id));
    assert_eq!(reg.len(), 0);
    assert!(matches!(authorize_download(&mut reg, &id, "secret", &None), Err(DownloadError::JobNotFound)));
}

#[test]
fn privileged_download() {
    let mut reg = Registry::new();
    let admin = Some("hunter2".to_string());
    let r = authorize_download(&mut reg, "550e8400-e29b-41d4-a716-446655440000.mp4", "hunter2", &admin);
    assert_eq!(r.ok(), Some("permanent/550e8400-e29b-41d4-a716-446655440000.mp4".to_string()));
    let r = authorize_download(&mut reg, "../etc/passwd", "hunter2", &admin);
    assert!(matches!(r, Err(DownloadError::JobNotFound)));
    let default = Some("supersecret".to_string());
    let r = authorize_download(&mut reg, "550e8400-e29b-41d4-a716-446655440000", "supersecret", &default);
    assert!(matches!(r, Err(DownloadError::JobNotFound)));
    let empty = Some(String::new());
    let r = authorize_download(&mut reg, "550e8400-e29b-41d4-a716-446655440000", "", &empty);
    assert!(matches!(r, Err(DownloadError::JobNotFound)));
}

#[test]
fn file_deleted_only_after_full_transfer() {
    let mut t = Transfer::new("output/x.mp4".to_string(), 10);
    t.record_chunk(4);
    assert_eq!(t.finish(), None);
    t.record_chunk(6);
    assert_eq!(t.finish(), Some("output/x.mp4".to_string()));
    let mut big = Transfer::new("f".to_string(), u64::MAX);
    big.record_chunk(u64::MAX - 1);
    big.record_chunk(5);
    assert_eq!(big.sent, u64::MAX);
}

#[test]
fn upload_extension_and_job_creation() {
    assert_eq!(extension_of("holiday.final.MK-V!"), "MKV");
    assert_eq!(extension_of("noext"), "noext");
    assert_eq!(extension_of("clip."), "");
    match create_job(Some("clip.mkv".to_string()), JobType::Conversion, "tok".to_string()) {
        Ok(Job::Conversion(j)) => {
            assert_eq!(j.from, "mkv");
            assert_eq!(j.auth, "tok");
        }
        _ => panic!("expected a conversion job"),
    }
    assert!(matches!(
        create_job(Some("clip.mp4".to_string()), JobType::Compression, "tok".to_string()),
        Ok(Job::Compression(_))
    ));
    match create_job(Some("clip.mkv".to_string()), JobType::Compression, "tok".to_string()) {
        Err(UploadError::InvalidExtension(e)) => assert_eq!(e, "mkv"),
        _ => panic!("expected an invalid extension"),
    }
    assert!(matches!(create_job(None, JobType::Conversion, "tok".to_string()), Err(UploadError::NoFilename)));
    assert_eq!(UploadError::GetChunk.status_code(), 500);
    assert_eq!(UploadError::NoFilename.status_code(), 400);
    assert_eq!(UploadError::InvalidExtension("xyz".to_string()).message(), "invalid file extension: xyz.");
}

#[test]
fn fresh_state_is_empty() {
    let s = AppState::default();
    assert_eq!(s.jobs.len(), 0);
    assert!(s.vaapi_device_path.is_none());
}

fn frames(msgs: &[Option<ServerMessage>]) -> Vec<u64> {
    msgs.iter()
        .filter_map(|m| match m {
            Some(ServerMessage::Progress(n)) => Some(*n),
            _ => None,
        })
        .collect()
}

#[test]
fn conversion_session_end_to_end() {
    let mut reg = Registry::new();
    let token = mint_token();
    let j = conversion_job(&token, "mp4");
    let id = j.id;
    reg.insert(Job::Conversion(j));

    let mut s = Session::new();
    let r = s.on_handshake(&reg, ClientMessage::Hello { auth: "bad".to_string() });
    assert!(matches!(r, Some(ServerMessage::Error { ref message }) if message == "invalid auth"));
    assert_eq!(s.phase, Phase::AwaitingHandshake);
    assert!(s.on_handshake(&reg, ClientMessage::Hello { auth: token.clone() }).is_none());
    assert_eq!(s.phase, Phase::AwaitingParameters);

    assert!(matches!(s.on_start(ClientMessage::StartCompression { size_kb: 900 }), Ok(None)));
    assert!(matches!(s.on_start(ClientMessage::Other), Ok(None)));
    let launch = s.on_start(ClientMessage::StartConversion { to: "mp4".to_string(), speed: "medium".to_string() });
    match launch {
        Ok(Some(Launch::Conversion { conversion, speed })) => {
            assert_eq!(conversion.from, ConverterFormat::MP4);
            assert_eq!(conversion.to, ConverterFormat::MP4);
            assert_eq!(speed, ConversionSpeed::Medium);
        }
        _ => panic!("expected a conversion to run"),
    }
    assert_eq!(s.phase, Phase::Running);

    let mut sent = Vec::new();
    for n in [1u64, 2, 3] {
        sent.push(s.on_update(ProgressUpdate::Frame(n)));
    }
    assert!(s.on_update(ProgressUpdate::Error("warning".to_string())).is_none());
    assert_eq!(frames(&sent), vec![1, 2, 3]);

    let done = s.finish(Some(4096));
    assert!(matches!(done.reply, ServerMessage::JobFinished));
    assert!(done.report.is_none());
    assert_eq!(s.phase, Phase::Finished);
    let job = s.job.take().unwrap();
    assert!(job.completed());
    reg.insert(job);

    let path = authorize_download(&mut reg, &id_text(id), &token, &None).ok().unwrap();
    assert_eq!(path, done.output_path);
    assert!(!reg.contains(id));

    let mut late = Session::new();
    let mut again = Registry::new();
    let mut k = conversion_job("t2", "mkv");
    k.state = JobState::Completed;
    again.insert(Job::Conversion(k));
    let r = late.on_handshake(&again, ClientMessage::Hello { auth: "t2".to_string() });
    assert!(matches!(r, Some(ServerMessage::Error { ref message }) if message == "job already completed"));
    assert_eq!(late.phase, Phase::Closed);
}

#[test]
fn failed_conversion_reports_logs() {
    let mut reg = Registry::new();
    let j = conversion_job("tok", "mkv");
    let id = j.id;
    reg.insert(Job::Conversion(j));
    let mut s = Session::new();
    s.on_handshake(&reg, ClientMessage::Hello { auth: "tok".to_string() });
    assert!(s.on_start(ClientMessage::StartConversion { to: "webm".to_string(), speed: "fast".to_string() }).is_ok());
    s.on_update(ProgressUpdate::Error("first".to_string()));
    s.on_update(ProgressUpdate::Error("second".to_string()));
    let done = s.finish(Some(0));
    assert_eq!(s.phase, Phase::Failed);
    assert!(matches!(done.reply, ServerMessage::Error { .. }));
    let report = done.report.unwrap();
    assert_eq!(report.job_id, id);
    assert_eq!(report.from, "mkv");
    assert_eq!(report.to, "webm");
    assert_eq!(report.logs, "first\nsecond");
    assert!(s.job.as_ref().unwrap().errored());
}

#[test]
fn bad_start_parameters_end_the_session() {
    let mut reg = Registry::new();
    reg.insert(Job::Conversion(conversion_job("tok", "mkv")));
    let mut s = Session::new();
    s.on_handshake(&reg, ClientMessage::Hello { auth: "tok".to_string() });
    let r = s.on_start(ClientMessage::StartConversion { to: "rm2".to_string(), speed: "fast".to_string() });
    assert!(r.is_err());
    assert_eq!(s.phase, Phase::Closed);
}

#[test]
fn compression_session_numbers_frames_across_passes() {
    let mut reg = Registry::new();
    reg.insert(Job::Compression(CompressionJob::new("tok".to_string(), CompressorFormat::MP4)));
    let mut s = Session::new();
    s.on_handshake(&reg, ClientMessage::Hello { auth: "tok".to_string() });
    match s.on_start(ClientMessage::StartCompression { size_kb: 8000 }) {
        Ok(Some(Launch::Compression { video_kb })) => assert_eq!(video_kb, 7872),
        _ => panic!("expected a compression to run"),
    }
    let mut seen = Vec::new();
    for n in 1..=3u64 {
        seen.push(s.on_update(ProgressUpdate::Frame(n)));
    }
    s.begin_second_pass(100);
    assert!(matches!(s.pass, PassState::Second { first_total: 100 }));
    for n in 1..=3u64 {
        seen.push(s.on_update(ProgressUpdate::Frame(n)));
    }
    assert_eq!(frames(&seen), vec![1, 2, 3, 101, 102, 103]);
    let done = s.finish(Some(1));
    assert!(matches!(done.reply, ServerMessage::JobFinished));
    assert!(done.output_path.ends_with(".mp4"));
}

#[test]
fn compression_too_small_is_refused() {
    let mut reg = Registry::new();
    reg.insert(Job::Compression(CompressionJob::new("tok".to_string(), CompressorFormat::MP4)));
    let mut s = Session::new();
    s.on_handshake(&reg, ClientMessage::Hello { auth: "tok".to_string() });
    assert!(s.on_start(ClientMessage::StartCompression { size_kb: 127 }).is_err());
    assert_eq!(s.phase, Phase::Closed);
}

#[test]
fn compression_of_exactly_the_audio_budget_runs_with_no_video_budget() {
    let mut reg = Registry::new();
    reg.insert(Job::Compression(CompressionJob::new("tok".to_string(), CompressorFormat::MP4)));
    let mut s = Session::new();
    s.on_handshake(&reg, ClientMessage::Hello { auth: "tok".to_string() });
    match s.on_start(ClientMessage::StartCompression { size_kb: 128 }) {
        Ok(Some(Launch::Compression { video_kb })) => assert_eq!(video_kb, 0),
        _ => panic!("expected a compression to run"),
    }
    match &s.job {
        Some(Job::Compression(j)) => assert_eq!(j.target_size_kb, Some(0)),
        _ => panic!("expected the compression job"),
    }
}
