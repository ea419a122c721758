use vertd::gpu::{CodecFamily, GpuNegotiator, is_candidate};

#[test]
fn candidates_in_probe_order() {
    let names: Vec<String> = (0..6).filter_map(|i| CodecFamily::H264.candidate(i)).collect();
    assert_eq!(names, vec!["h264_nvenc", "h264_qsv", "h264_vaapi", "h264_amf", "h264_videotoolbox"]);
    assert_eq!(CodecFamily::Mpeg2.candidate(1), Some("mpeg2_qsv".to_string()));
    assert_eq!(CodecFamily::Vp8.candidate(5), None);
    assert!(is_candidate(CodecFamily::Av1, "av1_amf"));
    assert!(!is_candidate(CodecFamily::Av1, "libaom-av1"));
}

#[test]
fn first_outcome_is_kept() {
    let mut gpu = GpuNegotiator::new();
    assert_eq!(gpu.cached(CodecFamily::H264), None);
    gpu.record(CodecFamily::H264, None);
    gpu.record(CodecFamily::H264, Some("h264_nvenc".to_string()));
    assert_eq!(gpu.cached(CodecFamily::H264), Some(None));
}

#[test]
fn foreign_names_count_as_none_found() {
    let mut gpu = GpuNegotiator::new();
    gpu.record(CodecFamily::Vp9, Some("h264_nvenc".to_string()));
    assert_eq!(gpu.cached(CodecFamily::Vp9), Some(None));
}

// Drives negotiation the way the service does, with a stand-in probe that counts its calls.
fn resolve(gpu: &mut GpuNegotiator, families: &Vec<CodecFamily>, default: &str, probes: &mut usize, works: &str) -> String {
    loop {
        match gpu.select_encoder(families, default) {
            Ok(e) => return e,
            Err(f) => {
                let mut tried = 0;
                let mut found = None;
                while let Some(c) = f.candidate(tried) {
                    *probes += 1;
                    if c == works {
                        found = Some(c);
                        break;
                    }
                    tried += 1;
                }
                gpu.record(f, found);
            }
        }
    }
}

#[test]
fn probing_a_family_happens_once() {
    let mut gpu = GpuNegotiator::new();
    let mut probes = 0;
    let fams = vec![CodecFamily::H264];
    let a = resolve(&mut gpu, &fams, "libx264", &mut probes, "h264_vaapi");
    let after_first = probes;
    let b = resolve(&mut gpu, &fams, "libx264", &mut probes, "h264_vaapi");
    assert_eq!(a, "h264_vaapi");
    assert_eq!(b, "h264_vaapi");
    assert_eq!(after_first, 3);
    assert_eq!(probes, after_first);
}

#[test]
fn negative_results_are_cached_too() {
    let mut gpu = GpuNegotiator::new();
    let mut probes = 0;
    let fams = vec![CodecFamily::Wmv2, CodecFamily::Wmv3];
    let a = resolve(&mut gpu, &fams, "wmv2", &mut probes, "nothing");
    assert_eq!(a, "wmv2");
    assert_eq!(probes, 10);
    let b = resolve(&mut gpu, &fams, "wmv2", &mut probes, "nothing");
    assert_eq!(b, "wmv2");
    assert_eq!(probes, 10);
}
