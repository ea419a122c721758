use vertd::format::{ConversionSpeed, ConverterFormat};
use vertd::gpu::{CodecFamily, GpuNegotiator};
use vertd::policy::{conversion_command, Conversion, PolicyError, SourceInfo};

const ALL: [ConverterFormat; 28] = [
    ConverterFormat::MP4, ConverterFormat::WebM, ConverterFormat::GIF, ConverterFormat::AVI,
    ConverterFormat::MKV, ConverterFormat::WMV, ConverterFormat::MOV, ConverterFormat::MTS,
    ConverterFormat::TS, ConverterFormat::M2TS, ConverterFormat::MPEG, ConverterFormat::MPG,
    ConverterFormat::FLV, ConverterFormat::F4V, ConverterFormat::VOB, ConverterFormat::M4V,
    ConverterFormat::ThreeGP, ConverterFormat::ThreeG2, ConverterFormat::MXF, ConverterFormat::OGV,
    ConverterFormat::RM, ConverterFormat::RMVB, ConverterFormat::H264, ConverterFormat::DIVX,
    ConverterFormat::SWF, ConverterFormat::AMV, ConverterFormat::ASF, ConverterFormat::NUT,
];

fn source(width: u32, height: u32, pix: &str) -> SourceInfo {
    SourceInfo { width, height, pix_fmt: pix.to_string() }
}

fn no_acceleration() -> GpuNegotiator {
    let mut gpu = GpuNegotiator::new();
    for f in [
        CodecFamily::H264, CodecFamily::Wmv2, CodecFamily::Wmv3, CodecFamily::Av1,
        CodecFamily::Vp9, CodecFamily::Vp8, CodecFamily::Mpeg2,
    ] {
        gpu.record(f, None);
    }
    gpu
}

fn args(to: ConverterFormat, gpu: &GpuNegotiator, fps: u32, src: &SourceInfo) -> Result<Vec<String>, PolicyError> {
    Conversion::new(ConverterFormat::MKV, to).to_args(ConversionSpeed::Medium, gpu, 7_000_000, fps, src)
}

fn count(v: &[String], flag: &str) -> usize {
    v.iter().filter(|a| a.as_str() == flag).count()
}

fn has_pair(v: &[String], a: &str, b: &str) -> bool {
    v.windows(2).any(|w| w[0] == a && w[1] == b)
}

#[test]
fn mp4_software_arguments_exact() {
    let gpu = no_acceleration();
    let v = args(ConverterFormat::MP4, &gpu, 30, &source(1920, 1080, "yuv420p")).unwrap();
    assert_eq!(
        v,
        vec!["-c:v", "libx264", "-c:a", "aac", "-strict", "experimental", "-preset", "medium", "-b:v", "7000000"]
    );
}

#[test]
fn unprobed_family_is_requested() {
    let gpu = GpuNegotiator::new();
    let r = args(ConverterFormat::MP4, &gpu, 30, &source(1920, 1080, "yuv420p"));
    assert!(matches!(r, Err(PolicyError::NeedsProbe(CodecFamily::H264))));
    let r = args(ConverterFormat::WebM, &gpu, 30, &source(1920, 1080, "yuv420p"));
    assert!(matches!(r, Err(PolicyError::NeedsProbe(CodecFamily::Av1))));
}

#[test]
fn accelerated_encoder_is_used_without_preset() {
    let mut gpu = GpuNegotiator::new();
    gpu.record(CodecFamily::H264, Some("h264_nvenc".to_string()));
    let v = args(ConverterFormat::MOV, &gpu, 30, &source(1280, 720, "yuv420p")).unwrap();
    assert_eq!(v, vec!["-c:v", "h264_nvenc", "-c:a", "aac", "-strict", "experimental", "-b:v", "7000000"]);
}

#[test]
fn webm_falls_through_families_in_order() {
    let mut gpu = GpuNegotiator::new();
    gpu.record(CodecFamily::Av1, None);
    gpu.record(CodecFamily::Vp9, Some("vp9_vaapi".to_string()));
    let v = args(ConverterFormat::WebM, &gpu, 30, &source(1280, 720, "yuv420p")).unwrap();
    assert_eq!(v, vec!["-c:v", "vp9_vaapi", "-c:a", "libvorbis", "-b:v", "7000000"]);
}

#[test]
fn every_supported_format_has_one_codec_pair() {
    let gpu = no_acceleration();
    let src = source(1920, 1080, "yuv420p10le");
    for f in ALL {
        let r = args(f, &gpu, 60, &src);
        match f {
            ConverterFormat::RM | ConverterFormat::RMVB => {
                assert!(matches!(r, Err(PolicyError::Unsupported(g)) if g == f));
            }
            ConverterFormat::GIF => {
                let v = r.unwrap();
                assert_eq!(v[0], "-filter_complex");
                assert_eq!(count(&v, "-c:v"), 0);
                assert_eq!(count(&v, "-c:a"), 0);
            }
            _ => {
                let v = r.unwrap();
                assert!(!v.is_empty());
                assert_eq!(count(&v, "-c:v"), 1, "{:?}", f);
                assert_eq!(count(&v, "-c:a"), 1, "{:?}", f);
            }
        }
    }
}

#[test]
fn ten_and_twelve_bit_sources_forced_to_eight_bit() {
    let gpu = no_acceleration();
    for pix in ["yuv420p10le", "yuv422p10be", "yuv420p12le", "yuv444p12be"] {
        let v = args(ConverterFormat::MKV, &gpu, 30, &source(1920, 1080, pix)).unwrap();
        assert!(has_pair(&v, "-pix_fmt", "yuv420p"), "{}", pix);
    }
    let v = args(ConverterFormat::MKV, &gpu, 30, &source(1920, 1080, "yuv420p")).unwrap();
    assert!(!v.contains(&"-pix_fmt".to_string()));
}

#[test]
fn uhd_sources_raise_level_and_cap_rate() {
    let gpu = no_acceleration();
    let v = args(ConverterFormat::MP4, &gpu, 144, &source(3840, 2160, "yuv420p")).unwrap();
    assert!(has_pair(&v, "-level:v", "5.2"));
    assert!(has_pair(&v, "-r", "120"));
    let v = args(ConverterFormat::MP4, &gpu, 60, &source(1000, 2160, "yuv420p")).unwrap();
    assert!(has_pair(&v, "-level:v", "5.2"));
    assert!(!has_pair(&v, "-r", "120"));
    let v = args(ConverterFormat::MP4, &gpu, 144, &source(3839, 2159, "yuv420p")).unwrap();
    assert!(!v.contains(&"-level:v".to_string()));
}

#[test]
fn narrow_sources_are_upscaled() {
    let gpu = no_acceleration();
    let v = args(ConverterFormat::TS, &gpu, 30, &source(159, 90, "yuv420p")).unwrap();
    assert!(has_pair(&v, "-vf", "scale=160:-1"));
    let v = args(ConverterFormat::TS, &gpu, 30, &source(160, 90, "yuv420p")).unwrap();
    assert!(!v.contains(&"-vf".to_string()));
}

#[test]
fn gif_filter_caps_rate_at_24() {
    let gpu = GpuNegotiator::new();
    let v = args(ConverterFormat::GIF, &gpu, 60, &source(1920, 1080, "yuv420p")).unwrap();
    assert_eq!(
        v,
        vec![
            "-filter_complex",
            "fps=24,scale=800:-1:flags=lanczos,split[s0][s1];[s0]palettegen=max_colors=64[p];[s1][p]paletteuse=dither=bayer"
        ]
    );
    let v = args(ConverterFormat::GIF, &gpu, 12, &source(1920, 1080, "yuv420p")).unwrap();
    assert!(v[1].starts_with("fps=12,"));
}

#[test]
fn amv_legacy_flags() {
    let gpu = GpuNegotiator::new();
    let v = args(ConverterFormat::AMV, &gpu, 30, &source(320, 240, "yuv420p")).unwrap();
    assert_eq!(
        v,
        vec![
            "-c:v", "amv", "-c:a", "adpcm_ima_amv", "-ac", "1", "-ar", "22050", "-r", "25", "-block_size",
            "882", "-strict", "-1", "-b:v", "7000000"
        ]
    );
}

#[test]
fn mxf_and_swf_flags() {
    let gpu = no_acceleration();
    let v = args(ConverterFormat::MXF, &gpu, 30, &source(1920, 1080, "yuv420p")).unwrap();
    assert_eq!(v, vec!["-c:v", "mpeg2video", "-c:a", "pcm_s16le", "-strict", "unofficial", "-b:v", "7000000"]);
    let v = args(ConverterFormat::SWF, &gpu, 30, &source(1920, 1080, "yuv420p")).unwrap();
    assert_eq!(v, vec!["-f", "swf", "-c:v", "flv", "-c:a", "libmp3lame", "-b:a", "192k", "-b:v", "7000000"]);
}

#[test]
fn rate_arguments_on_their_own() {
    let v = ConverterFormat::MP4.conversion_into_args(ConversionSpeed::VerySlow, "libx264", 1234);
    assert_eq!(v, vec!["-preset", "veryslow", "-b:v", "1234"]);
    let v = ConverterFormat::MP4.conversion_into_args(ConversionSpeed::VerySlow, "h264_qsv", 0);
    assert_eq!(v, vec!["-b:v", "0"]);
    assert!(ConverterFormat::GIF.conversion_into_args(ConversionSpeed::Fast, "gif", 5).is_empty());
}

#[test]
fn format_names_round_trip() {
    for f in ALL {
        assert_eq!(ConverterFormat::from_name(f.name()), Some(f));
    }
    assert_eq!(ConverterFormat::from_name("3gp"), Some(ConverterFormat::ThreeGP));
    assert_eq!(ConverterFormat::from_name("MP4"), None);
    assert_eq!(ConversionSpeed::from_name("ultrafast"), Some(ConversionSpeed::UltraFast));
    assert_eq!(ConversionSpeed::from_name("warp"), None);
}

#[test]
fn full_command_line() {
    let v = conversion_command("input/a.mkv", vec!["-c:v".to_string(), "x".to_string()], "output/a.mp4");
    assert_eq!(
        v,
        vec!["-hide_banner", "-loglevel", "error", "-progress", "pipe:1", "-y", "-i", "input/a.mkv", "-c:v", "x", "output/a.mp4"]
    );
}
