//! The Format Policy Engine: from a target format, a speed preset, what is known of the
//! accelerated encoders, and what the source looks like, the exact encoder arguments.
use vstd::prelude::*;
use crate::format::{CompressorFormat, ConverterFormat, ConversionSpeed, preset_name};
use crate::gpu::{CodecFamily, GpuNegotiator, all_accelerated, backend_suffixes, family_name, hardware_candidates, negotiate};
use crate::text::{contains, contains_str, decimal, decimal_string, str_eq, views};

verus! {

/// Sources at or above this width or height are treated as 4K.
pub const UHD_WIDTH: u32 = 3840;
/// See `UHD_WIDTH`.
pub const UHD_HEIGHT: u32 = 2160;
/// Accelerated H.264 encoders reject frames narrower than this; smaller sources are upscaled.
pub const MIN_WIDTH: u32 = 160;
/// The frame-rate ceiling for 4K H.264 output.
pub const MAX_UHD_FPS: u32 = 120;
/// The frame-rate ceiling for animated images.
pub const MAX_GIF_FPS: u32 = 24;

/// What the policy needs to know of the source video.
pub struct SourceInfo {
    pub width: u32,
    pub height: u32,
    pub pix_fmt: String,
}

/// Why no argument list could be produced.
#[derive(Clone, Copy, Debug, PartialEq, Eq, Structural)]
pub enum PolicyError {
    /// The target format cannot be encoded.
    Unsupported(ConverterFormat),
    /// This codec family must be probed for accelerated encoders before the policy can decide.
    NeedsProbe(CodecFamily),
}

/// A pair of formats: what a job reads and what it is to write.
#[derive(Clone, Copy, Debug, PartialEq, Eq, Structural)]
pub struct Conversion {
    pub from: ConverterFormat,
    pub to: ConverterFormat,
}

/// The formats that no encoder is offered for.
pub open spec fn is_unsupported(f: ConverterFormat) -> bool {
    f == ConverterFormat::RM || f == ConverterFormat::RMVB
}

/// The formats written with an H.264 video stream.
pub open spec fn is_h264_family(f: ConverterFormat) -> bool {
    match f {
        ConverterFormat::MP4 | ConverterFormat::MKV | ConverterFormat::MOV | ConverterFormat::MTS
        | ConverterFormat::TS | ConverterFormat::M2TS | ConverterFormat::FLV | ConverterFormat::F4V
        | ConverterFormat::M4V | ConverterFormat::ThreeGP | ConverterFormat::ThreeG2
        | ConverterFormat::H264 => true,
        _ => false,
    }
}

/// The codec families whose accelerated encoders a format may use, best first.
pub open spec fn codec_families(f: ConverterFormat) -> Seq<CodecFamily> {
    if is_h264_family(f) {
        seq![CodecFamily::H264]
    } else {
        match f {
            ConverterFormat::WMV => seq![CodecFamily::Wmv2, CodecFamily::Wmv3],
            ConverterFormat::WebM => seq![CodecFamily::Av1, CodecFamily::Vp9, CodecFamily::Vp8],
            ConverterFormat::MPEG | ConverterFormat::MPG | ConverterFormat::VOB
            | ConverterFormat::MXF => seq![CodecFamily::Mpeg2],
            _ => Seq::empty(),
        }
    }
}

/// The video encoder a format uses when no accelerated one is available.
pub open spec fn software_encoder(f: ConverterFormat) -> Seq<char> {
    if is_h264_family(f) {
        "libx264"@
    } else {
        match f {
            ConverterFormat::WMV => "wmv2"@,
            ConverterFormat::WebM => "libvpx"@,
            ConverterFormat::MPEG | ConverterFormat::MPG | ConverterFormat::VOB
            | ConverterFormat::MXF => "mpeg2video"@,
            ConverterFormat::NUT | ConverterFormat::AVI | ConverterFormat::DIVX => "mpeg4"@,
            ConverterFormat::OGV => "libtheora"@,
            ConverterFormat::SWF => "flv"@,
            ConverterFormat::ASF => "msmpeg4v3"@,
            ConverterFormat::AMV => "amv"@,
            _ => "gif"@,
        }
    }
}

/// Whether a pixel format has 10 or 12 bits per component.
pub open spec fn is_high_bit_depth(pix_fmt: Seq<char>) -> bool {
    contains(pix_fmt, "10le"@) || contains(pix_fmt, "10be"@) || contains(pix_fmt, "12le"@)
        || contains(pix_fmt, "12be"@)
}

/// Whether a source of this size counts as 4K.
pub open spec fn is_uhd(width: u32, height: u32) -> bool {
    width >= UHD_WIDTH || height >= UHD_HEIGHT
}

/// The arguments for an H.264-family target with video encoder `enc`.
pub open spec fn h264_args(enc: Seq<char>, width: u32, height: u32, pix_fmt: Seq<char>, fps: u32) -> Seq<Seq<char>> {
    seq!["-c:v"@, enc]
        + (if is_high_bit_depth(pix_fmt) { seq!["-pix_fmt"@, "yuv420p"@] } else { Seq::empty() })
        + (if is_uhd(width, height) {
            seq!["-level:v"@, "5.2"@] + (if fps > MAX_UHD_FPS { seq!["-r"@, "120"@] } else { Seq::empty() })
        } else {
            Seq::empty()
        })
        + (if width < MIN_WIDTH { seq!["-vf"@, "scale=160:-1"@] } else { Seq::empty() })
        + seq!["-c:a"@, "aac"@, "-strict"@, "experimental"@]
}

/// The filter graph that renders an animated image at `fps` frames per second.
pub open spec fn gif_filter(fps: u32) -> Seq<char> {
    "fps="@ + decimal(if fps < MAX_GIF_FPS { fps as nat } else { MAX_GIF_FPS as nat })
        + ",scale=800:-1:flags=lanczos,split[s0][s1];[s0]palettegen=max_colors=64[p];[s1][p]paletteuse=dither=bayer"@
}

/// The format-specific arguments of a supported target, with video encoder `enc`.
pub open spec fn format_args(
    to: ConverterFormat,
    enc: Seq<char>,
    width: u32,
    height: u32,
    pix_fmt: Seq<char>,
    fps: u32,
) -> Seq<Seq<char>> {
    if is_h264_family(to) {
        h264_args(enc, width, height, pix_fmt, fps)
    } else {
        match to {
            ConverterFormat::GIF => seq!["-filter_complex"@, gif_filter(fps)],
            ConverterFormat::WMV => seq!["-c:v"@, enc, "-c:a"@, "wmav2"@],
            ConverterFormat::WebM => seq!["-c:v"@, enc, "-c:a"@, "libvorbis"@],
            ConverterFormat::NUT | ConverterFormat::AVI => seq!["-c:v"@, "mpeg4"@, "-c:a"@, "libmp3lame"@],
            ConverterFormat::MPEG | ConverterFormat::MPG | ConverterFormat::VOB => seq!["-c:v"@, enc, "-c:a"@, "mp2"@],
            ConverterFormat::MXF => seq!["-c:v"@, enc, "-c:a"@, "pcm_s16le"@, "-strict"@, "unofficial"@],
            ConverterFormat::OGV => seq!["-c:v"@, "libtheora"@, "-c:a"@, "libvorbis"@],
            ConverterFormat::DIVX => seq!["-f"@, "avi"@, "-c:v"@, "mpeg4"@, "-c:a"@, "libmp3lame"@],
            ConverterFormat::SWF => seq!["-f"@, "swf"@, "-c:v"@, "flv"@, "-c:a"@, "libmp3lame"@, "-b:a"@, "192k"@],
            ConverterFormat::ASF => seq!["-c:v"@, "msmpeg4v3"@, "-c:a"@, "wmav2"@],
            _ => seq![
                "-c:v"@, "amv"@, "-c:a"@, "adpcm_ima_amv"@, "-ac"@, "1"@, "-ar"@, "22050"@, "-r"@, "25"@,
                "-block_size"@, "882"@, "-strict"@, "-1"@,
            ],
        }
    }
}

/// The rate-control arguments: none for animated images; otherwise the preset, where the
/// video encoder is the software H.264 encoder, and the video bitrate.
pub open spec fn speed_args(to: ConverterFormat, speed: ConversionSpeed, enc: Seq<char>, bitrate: u64) -> Seq<Seq<char>> {
    if to == ConverterFormat::GIF {
        Seq::empty()
    } else {
        (if enc == "libx264"@ { seq!["-preset"@, preset_name(speed)] } else { Seq::empty() })
            + seq!["-b:v"@, decimal(bitrate as nat)]
    }
}

/// The whole argument list for a conversion to `to`, given what is known of accelerated
/// encoders.
pub open spec fn conversion_args(
    to: ConverterFormat,
    speed: ConversionSpeed,
    known: Map<CodecFamily, Option<Seq<char>>>,
    width: u32,
    height: u32,
    pix_fmt: Seq<char>,
    bitrate: u64,
    fps: u32,
) -> Result<Seq<Seq<char>>, PolicyError> {
    if is_unsupported(to) {
        Err(PolicyError::Unsupported(to))
    } else {
        match negotiate(known, codec_families(to), software_encoder(to)) {
            Err(f) => Err(PolicyError::NeedsProbe(f)),
            Ok(enc) => Ok(format_args(to, enc, width, height, pix_fmt, fps) + speed_args(to, speed, enc, bitrate)),
        }
    }
}

fn push_str(v: &mut Vec<String>, s: &str)
    ensures
        views(final(v)@) == views(old(v)@).push(s@),
{
    let ghost before = v@;
    v.push(String::from_str(s));
    assert(views(v@) =~= views(before).push(s@));
}

fn push_pair(v: &mut Vec<String>, a: &str, b: &str)
    ensures
        views(final(v)@) == views(old(v)@) + seq![a@, b@],
{
    push_str(v, a);
    push_str(v, b);
    assert(views(old(v)@).push(a@).push(b@) =~= views(old(v)@) + seq![a@, b@]);
}

/// Whether the pixel format has 10 or 12 bits per component.
pub fn high_bit_depth(pix_fmt: &str) -> (r: bool)
    ensures
        r == is_high_bit_depth(pix_fmt@),
{
    contains_str(pix_fmt, "10le") || contains_str(pix_fmt, "10be") || contains_str(pix_fmt, "12le")
        || contains_str(pix_fmt, "12be")
}

impl ConverterFormat {
    /// The codec families whose accelerated encoders this format may use, best first.
    pub fn codec_families(&self) -> (r: Vec<CodecFamily>)
        ensures
            r@ == codec_families(*self),
    {
        let mut v: Vec<CodecFamily> = Vec::new();
        match self {
            ConverterFormat::MP4 | ConverterFormat::MKV | ConverterFormat::MOV | ConverterFormat::MTS
            | ConverterFormat::TS | ConverterFormat::M2TS | ConverterFormat::FLV | ConverterFormat::F4V
            | ConverterFormat::M4V | ConverterFormat::ThreeGP | ConverterFormat::ThreeG2
            | ConverterFormat::H264 => {
                v.push(CodecFamily::H264);
            },
            ConverterFormat::WMV => {
                v.push(CodecFamily::Wmv2);
                v.push(CodecFamily::Wmv3);
            },
            ConverterFormat::WebM => {
                v.push(CodecFamily::Av1);
                v.push(CodecFamily::Vp9);
                v.push(CodecFamily::Vp8);
            },
            ConverterFormat::MPEG | ConverterFormat::MPG | ConverterFormat::VOB | ConverterFormat::MXF => {
                v.push(CodecFamily::Mpeg2);
            },
            _ => {},
        }
        assert(v@ =~= codec_families(*self));
        v
    }

    /// The video encoder this format uses when no accelerated one is available.
    pub fn software_encoder(&self) -> (r: &'static str)
        ensures
            r@ == software_encoder(*self),
    {
        match self {
            ConverterFormat::MP4 | ConverterFormat::MKV | ConverterFormat::MOV | ConverterFormat::MTS
            | ConverterFormat::TS | ConverterFormat::M2TS | ConverterFormat::FLV | ConverterFormat::F4V
            | ConverterFormat::M4V | ConverterFormat::ThreeGP | ConverterFormat::ThreeG2
            | ConverterFormat::H264 => "libx264",
            ConverterFormat::WMV => "wmv2",
            ConverterFormat::WebM => "libvpx",
            ConverterFormat::MPEG | ConverterFormat::MPG | ConverterFormat::VOB | ConverterFormat::MXF => "mpeg2video",
            ConverterFormat::NUT | ConverterFormat::AVI | ConverterFormat::DIVX => "mpeg4",
            ConverterFormat::OGV => "libtheora",
            ConverterFormat::SWF => "flv",
            ConverterFormat::ASF => "msmpeg4v3",
            ConverterFormat::AMV => "amv",
            _ => "gif",
        }
    }

    /// The rate-control arguments of a conversion to this format: the encoder preset that
    /// `speed` names (for the software H.264 encoder only) and the video bitrate.
    pub fn conversion_into_args(&self, speed: ConversionSpeed, encoder: &str, bitrate: u64) -> (r: Vec<String>)
        ensures
            views(r@) == speed_args(*self, speed, encoder@, bitrate),
    {
        let mut v: Vec<String> = Vec::new();
        if let ConverterFormat::GIF = self {
            assert(views(v@) =~= Seq::<Seq<char>>::empty());
            return v;
        }
        if str_eq(encoder, "libx264") {
            push_pair(&mut v, "-preset", speed.preset());
        }
        let rate = decimal_string(bitrate);
        push_pair(&mut v, "-b:v", rate.as_str());
        assert(views(v@) =~= speed_args(*self, speed, encoder@, bitrate));
        v
    }
}

fn h264_args_exec(enc: &str, source: &SourceInfo, fps: u32) -> (r: Vec<String>)
    ensures
        views(r@) == h264_args(enc@, source.width, source.height, source.pix_fmt@, fps),
{
    let mut v: Vec<String> = Vec::new();
    push_pair(&mut v, "-c:v", enc);
    let ghost a = views(v@);
    if high_bit_depth(source.pix_fmt.as_str()) {
        push_pair(&mut v, "-pix_fmt", "yuv420p");
    }
    let ghost b = views(v@);
    if source.width >= UHD_WIDTH || source.height >= UHD_HEIGHT {
        push_pair(&mut v, "-level:v", "5.2");
        if fps > MAX_UHD_FPS {
            push_pair(&mut v, "-r", "120");
        }
    }
    let ghost c = views(v@);
    if source.width < MIN_WIDTH {
        push_pair(&mut v, "-vf", "scale=160:-1");
    }
    let ghost d = views(v@);
    push_pair(&mut v, "-c:a", "aac");
    push_pair(&mut v, "-strict", "experimental");
    assert(views(v@) =~= h264_args(enc@, source.width, source.height, source.pix_fmt@, fps));
    v
}

fn gif_filter_exec(fps: u32) -> (r: String)
    ensures
        r@ == gif_filter(fps),
{
    let capped: u64 = if fps < MAX_GIF_FPS { fps as u64 } else { MAX_GIF_FPS as u64 };
    let n = decimal_string(capped);
    let r = String::from_str("fps=").concat(n.as_str()).concat(
        ",scale=800:-1:flags=lanczos,split[s0][s1];[s0]palettegen=max_colors=64[p];[s1][p]paletteuse=dither=bayer",
    );
    r
}

fn format_args_exec(to: ConverterFormat, enc: &str, source: &SourceInfo, fps: u32) -> (r: Vec<String>)
    requires
        !is_unsupported(to),
    ensures
        views(r@) == format_args(to, enc@, source.width, source.height, source.pix_fmt@, fps),
{
    let mut v: Vec<String> = Vec::new();
    match to {
        ConverterFormat::MP4 | ConverterFormat::MKV | ConverterFormat::MOV | ConverterFormat::MTS
        | ConverterFormat::TS | ConverterFormat::M2TS | ConverterFormat::FLV | ConverterFormat::F4V
        | ConverterFormat::M4V | ConverterFormat::ThreeGP | ConverterFormat::ThreeG2
        | ConverterFormat::H264 => {
            return h264_args_exec(enc, source, fps);
        },
        ConverterFormat::GIF => {
            let filter = gif_filter_exec(fps);
            push_pair(&mut v, "-filter_complex", filter.as_str());
        },
        ConverterFormat::WMV => {
            push_pair(&mut v, "-c:v", enc);
            push_pair(&mut v, "-c:a", "wmav2");
        },
        ConverterFormat::WebM => {
            push_pair(&mut v, "-c:v", enc);
            push_pair(&mut v, "-c:a", "libvorbis");
        },
        ConverterFormat::NUT | ConverterFormat::AVI => {
            push_pair(&mut v, "-c:v", "mpeg4");
            push_pair(&mut v, "-c:a", "libmp3lame");
        },
        ConverterFormat::MPEG | ConverterFormat::MPG | ConverterFormat::VOB => {
            push_pair(&mut v, "-c:v", enc);
            push_pair(&mut v, "-c:a", "mp2");
        },
        ConverterFormat::MXF => {
            push_pair(&mut v, "-c:v", enc);
            push_pair(&mut v, "-c:a", "pcm_s16le");
            push_pair(&mut v, "-strict", "unofficial");
        },
        ConverterFormat::OGV => {
            push_pair(&mut v, "-c:v", "libtheora");
            push_pair(&mut v, "-c:a", "libvorbis");
        },
        ConverterFormat::DIVX => {
            push_pair(&mut v, "-f", "avi");
            push_pair(&mut v, "-c:v", "mpeg4");
            push_pair(&mut v, "-c:a", "libmp3lame");
        },
        ConverterFormat::SWF => {
            push_pair(&mut v, "-f", "swf");
            push_pair(&mut v, "-c:v", "flv");
            push_pair(&mut v, "-c:a", "libmp3lame");
            push_pair(&mut v, "-b:a", "192k");
        },
        ConverterFormat::ASF => {
            push_pair(&mut v, "-c:v", "msmpeg4v3");
            push_pair(&mut v, "-c:a", "wmav2");
        },
        _ => {
            push_pair(&mut v, "-c:v", "amv");
            push_pair(&mut v, "-c:a", "adpcm_ima_amv");
            push_pair(&mut v, "-ac", "1");
            push_pair(&mut v, "-ar", "22050");
            push_pair(&mut v, "-r", "25");
            push_pair(&mut v, "-block_size", "882");
            push_pair(&mut v, "-strict", "-1");
        },
    }
    assert(views(v@) =~= format_args(to, enc@, source.width, source.height, source.pix_fmt@, fps));
    v
}

/// The options that make the encoder report progress on its standard output and read the
/// source at `input`.
pub open spec fn command_prefix(input: Seq<char>) -> Seq<Seq<char>> {
    seq!["-hide_banner"@, "-loglevel"@, "error"@, "-progress"@, "pipe:1"@, "-y"@, "-i"@, input]
}

/// The whole encoder command line of a conversion: progress reporting and input, the
/// policy's arguments, then the output file.
pub fn conversion_command(input: &str, args: Vec<String>, output: &str) -> (r: Vec<String>)
    ensures
        views(r@) == command_prefix(input@) + views(args@) + seq![output@],
{
    let mut v: Vec<String> = Vec::new();
    push_pair(&mut v, "-hide_banner", "-loglevel");
    push_pair(&mut v, "error", "-progress");
    push_pair(&mut v, "pipe:1", "-y");
    push_pair(&mut v, "-i", input);
    let ghost a = views(v@);
    let mut rest = args;
    let ghost b = views(rest@);
    v.append(&mut rest);
    assert(views(v@) =~= a + b);
    push_str(&mut v, output);
    assert(views(v@) =~= command_prefix(input@) + b + seq![output@]);
    v
}

impl CompressorFormat {
    /// The video encoder of a compression to this format: an accelerated H.264 encoder if
    /// one is known to work, else the software one; or the family to probe first.
    pub fn codec(&self, gpu: &GpuNegotiator) -> (r: Result<String, CodecFamily>)
        requires
            gpu.wf(),
        ensures
            match r {
                Ok(e) => negotiate(gpu@, seq![CodecFamily::H264], "libx264"@) == Ok::<Seq<char>, CodecFamily>(e@),
                Err(f) => negotiate(gpu@, seq![CodecFamily::H264], "libx264"@) == Err::<Seq<char>, CodecFamily>(f),
            },
    {
        let mut families: Vec<CodecFamily> = Vec::new();
        families.push(CodecFamily::H264);
        assert(families@ =~= seq![CodecFamily::H264]);
        match self {
            CompressorFormat::MP4 => gpu.select_encoder(&families, "libx264"),
        }
    }
}

impl Conversion {
    /// A conversion from `from` to `to`.
    pub fn new(from: ConverterFormat, to: ConverterFormat) -> (r: Conversion)
        ensures
            r.from == from,
            r.to == to,
    {
        Conversion { from, to }
    }

    /// The encoder arguments for this conversion: format-specific codec choices and flags,
    /// then the rate-control arguments. Fails for targets that cannot be encoded, and asks
    /// for a probe where an accelerated encoder might serve and nothing is known of it yet.
    pub fn to_args(
        &self,
        speed: ConversionSpeed,
        gpu: &GpuNegotiator,
        bitrate: u64,
        fps: u32,
        source: &SourceInfo,
    ) -> (r: Result<Vec<String>, PolicyError>)
        requires
            gpu.wf(),
        ensures
            match r {
                Ok(v) => conversion_args(self.to, speed, gpu@, source.width, source.height, source.pix_fmt@, bitrate, fps)
                    == Ok::<Seq<Seq<char>>, PolicyError>(views(v@)),
                Err(e) => conversion_args(self.to, speed, gpu@, source.width, source.height, source.pix_fmt@, bitrate, fps)
                    == Err::<Seq<Seq<char>>, PolicyError>(e),
            },
    {
        if let ConverterFormat::RM | ConverterFormat::RMVB = self.to {
            return Err(PolicyError::Unsupported(self.to));
        }
        let families = self.to.codec_families();
        let enc = match gpu.select_encoder(&families, self.to.software_encoder()) {
            Ok(e) => e,
            Err(f) => {
                return Err(PolicyError::NeedsProbe(f));
            },
        };
        let mut args = format_args_exec(self.to, enc.as_str(), source, fps);
        let mut rate = self.to.conversion_into_args(speed, enc.as_str(), bitrate);
        let ghost a = views(args@);
        let ghost b = views(rate@);
        args.append(&mut rate);
        assert(views(args@) =~= a + b);
        Ok(args)
    }
}

/// How many times `x` occurs in `s` at position `i` or later.
pub open spec fn count_from(s: Seq<Seq<char>>, x: Seq<char>, i: int) -> nat
    decreases s.len() - i,
{
    if i < 0 || i >= s.len() {
        0
    } else {
        (if s[i] == x { 1nat } else { 0nat }) + count_from(s, x, i + 1)
    }
}

/// How many times `x` occurs in `s`.
pub open spec fn count(s: Seq<Seq<char>>, x: Seq<char>) -> nat {
    count_from(s, x, 0)
}

proof fn lemma_count_shift(a: Seq<Seq<char>>, b: Seq<Seq<char>>, x: Seq<char>, j: int)
    requires
        0 <= j <= b.len(),
    ensures
        count_from(a + b, x, a.len() + j) == count_from(b, x, j),
    decreases b.len() - j,
{
    if j < b.len() {
        lemma_count_shift(a, b, x, j + 1);
        assert((a + b)[a.len() + j] == b[j]);
    }
}

proof fn lemma_count_from_concat(a: Seq<Seq<char>>, b: Seq<Seq<char>>, x: Seq<char>, i: int)
    requires
        0 <= i <= a.len(),
    ensures
        count_from(a + b, x, i) == count_from(a, x, i) + count_from(b, x, 0),
    decreases a.len() - i,
{
    if i == a.len() {
        lemma_count_shift(a, b, x, 0);
    } else {
        lemma_count_from_concat(a, b, x, i + 1);
        assert((a + b)[i] == a[i]);
    }
}

/// Counting distributes over concatenation.
pub proof fn lemma_count_concat(a: Seq<Seq<char>>, b: Seq<Seq<char>>, x: Seq<char>)
    ensures
        count(a + b, x) == count(a, x) + count(b, x),
{
    lemma_count_from_concat(a, b, x, 0);
}

/// A non-empty argument that does not start like an option.
pub open spec fn is_word(a: Seq<char>) -> bool {
    a.len() > 0 && a[0] != '-'
}

/// Neither of the two codec flags.
pub open spec fn flag_free(a: Seq<char>) -> bool {
    a != "-c:v"@ && a != "-c:a"@
}

proof fn lemma_flag_free(a: Seq<char>)
    requires
        a.len() != 4 || a[0] != '-' || a[1] != 'c' || a[2] != ':' || (a[3] != 'v' && a[3] != 'a'),
    ensures
        flag_free(a),
{
    reveal_strlit("-c:v");
    reveal_strlit("-c:a");
    if a == "-c:v"@ {
        assert(a[0] == '-' && a[1] == 'c' && a[2] == ':' && a[3] == 'v');
    }
    if a == "-c:a"@ {
        assert(a[0] == '-' && a[1] == 'c' && a[2] == ':' && a[3] == 'a');
    }
}

proof fn lemma_literals_flag_free()
    ensures
        flag_free("-pix_fmt"@),
        flag_free("yuv420p"@),
        flag_free("-level:v"@),
        flag_free("5.2"@),
        flag_free("-r"@),
        flag_free("120"@),
        flag_free("-vf"@),
        flag_free("scale=160:-1"@),
        flag_free("aac"@),
        flag_free("-strict"@),
        flag_free("experimental"@),
        flag_free("-filter_complex"@),
        flag_free("wmav2"@),
        flag_free("libvorbis"@),
        flag_free("mpeg4"@),
        flag_free("libmp3lame"@),
        flag_free("mp2"@),
        flag_free("pcm_s16le"@),
        flag_free("unofficial"@),
        flag_free("libtheora"@),
        flag_free("-f"@),
        flag_free("avi"@),
        flag_free("swf"@),
        flag_free("flv"@),
        flag_free("-b:a"@),
        flag_free("192k"@),
        flag_free("msmpeg4v3"@),
        flag_free("amv"@),
        flag_free("adpcm_ima_amv"@),
        flag_free("-ac"@),
        flag_free("1"@),
        flag_free("-ar"@),
        flag_free("22050"@),
        flag_free("25"@),
        flag_free("-block_size"@),
        flag_free("882"@),
        flag_free("-1"@),
        flag_free("-preset"@),
        flag_free("-b:v"@),
        flag_free("libx264"@),
        flag_free("wmv2"@),
        flag_free("libvpx"@),
        flag_free("mpeg2video"@),
        flag_free("gif"@),
        "-c:v"@ != "-c:a"@,
{
    reveal_strlit("-pix_fmt");
    reveal_strlit("yuv420p");
    reveal_strlit("-level:v");
    reveal_strlit("5.2");
    reveal_strlit("-r");
    reveal_strlit("120");
    reveal_strlit("-vf");
    reveal_strlit("scale=160:-1");
    reveal_strlit("aac");
    reveal_strlit("-strict");
    reveal_strlit("experimental");
    reveal_strlit("-filter_complex");
    reveal_strlit("wmav2");
    reveal_strlit("libvorbis");
    reveal_strlit("mpeg4");
    reveal_strlit("libmp3lame");
    reveal_strlit("mp2");
    reveal_strlit("pcm_s16le");
    reveal_strlit("unofficial");
    reveal_strlit("libtheora");
    reveal_strlit("-f");
    reveal_strlit("avi");
    reveal_strlit("swf");
    reveal_strlit("flv");
    reveal_strlit("-b:a");
    reveal_strlit("192k");
    reveal_strlit("msmpeg4v3");
    reveal_strlit("amv");
    reveal_strlit("adpcm_ima_amv");
    reveal_strlit("-ac");
    reveal_strlit("1");
    reveal_strlit("-ar");
    reveal_strlit("22050");
    reveal_strlit("25");
    reveal_strlit("-block_size");
    reveal_strlit("882");
    reveal_strlit("-1");
    reveal_strlit("-preset");
    reveal_strlit("-b:v");
    reveal_strlit("libx264");
    reveal_strlit("wmv2");
    reveal_strlit("libvpx");
    reveal_strlit("mpeg2video");
    reveal_strlit("gif");
    lemma_flag_free("-pix_fmt"@);
    lemma_flag_free("yuv420p"@);
    lemma_flag_free("-level:v"@);
    lemma_flag_free("5.2"@);
    lemma_flag_free("-r"@);
    lemma_flag_free("120"@);
    lemma_flag_free("-vf"@);
    lemma_flag_free("scale=160:-1"@);
    lemma_flag_free("aac"@);
    lemma_flag_free("-strict"@);
    lemma_flag_free("experimental"@);
    lemma_flag_free("-filter_complex"@);
    lemma_flag_free("wmav2"@);
    lemma_flag_free("libvorbis"@);
    lemma_flag_free("mpeg4"@);
    lemma_flag_free("libmp3lame"@);
    lemma_flag_free("mp2"@);
    lemma_flag_free("pcm_s16le"@);
    lemma_flag_free("unofficial"@);
    lemma_flag_free("libtheora"@);
    lemma_flag_free("-f"@);
    lemma_flag_free("avi"@);
    lemma_flag_free("swf"@);
    lemma_flag_free("flv"@);
    lemma_flag_free("-b:a"@);
    lemma_flag_free("192k"@);
    lemma_flag_free("msmpeg4v3"@);
    lemma_flag_free("amv"@);
    lemma_flag_free("adpcm_ima_amv"@);
    lemma_flag_free("-ac"@);
    lemma_flag_free("1"@);
    lemma_flag_free("-ar"@);
    lemma_flag_free("22050"@);
    lemma_flag_free("25"@);
    lemma_flag_free("-block_size"@);
    lemma_flag_free("882"@);
    lemma_flag_free("-1"@);
    lemma_flag_free("-preset"@);
    lemma_flag_free("-b:v"@);
    lemma_flag_free("libx264"@);
    lemma_flag_free("wmv2"@);
    lemma_flag_free("libvpx"@);
    lemma_flag_free("mpeg2video"@);
    lemma_flag_free("gif"@);
    reveal_strlit("-c:v");
    reveal_strlit("-c:a");
    assert("-c:v"@[3] != "-c:a"@[3]);
}

proof fn lemma_decimal_first_digit(n: nat)
    ensures
        decimal(n).len() > 0,
        decimal(n)[0] != '-',
    decreases n,
{
    if n >= 10 {
        lemma_decimal_first_digit(n / 10);
    }
}

proof fn lemma_preset_flag_free(speed: ConversionSpeed)
    ensures
        flag_free(preset_name(speed)),
        is_word(preset_name(speed)),
{
    reveal_strlit("ultrafast");
    reveal_strlit("superfast");
    reveal_strlit("veryfast");
    reveal_strlit("faster");
    reveal_strlit("fast");
    reveal_strlit("medium");
    reveal_strlit("slow");
    reveal_strlit("slower");
    reveal_strlit("veryslow");
    let p = preset_name(speed);
    assert(p.len() > 0 && p[0] != '-');
    lemma_flag_free(p);
}

proof fn lemma_candidate_flag_free(f: CodecFamily, e: Seq<char>)
    requires
        hardware_candidates(f).contains(e),
    ensures
        flag_free(e),
        is_word(e),
{
    reveal_strlit("h264");
    reveal_strlit("wmv2");
    reveal_strlit("wmv3");
    reveal_strlit("av1");
    reveal_strlit("vp9");
    reveal_strlit("vp8");
    reveal_strlit("mpeg2");
    let i = choose|i: int| 0 <= i < hardware_candidates(f).len() && hardware_candidates(f)[i] == e;
    let name = family_name(f);
    assert(name.len() > 0 && name[0] != '-');
    assert(e == name + backend_suffixes()[i]);
    assert(e[0] == name[0]);
    lemma_flag_free(e);
}

proof fn lemma_negotiated_source(
    known: Map<CodecFamily, Option<Seq<char>>>,
    families: Seq<CodecFamily>,
    default: Seq<char>,
)
    requires
        negotiate(known, families, default) is Ok,
    ensures
        ({
            let e = negotiate(known, families, default)->Ok_0;
            e == default || exists|f: CodecFamily| known.contains_key(f) && known[f] == Some(e)
        }),
    decreases families.len(),
{
    if families.len() > 0 && known.contains_key(families[0]) && known[families[0]] is None {
        lemma_negotiated_source(known, families.drop_first(), default);
    }
}

proof fn lemma_negotiated_flag_free(to: ConverterFormat, known: Map<CodecFamily, Option<Seq<char>>>)
    requires
        all_accelerated(known),
        negotiate(known, codec_families(to), software_encoder(to)) is Ok,
    ensures
        flag_free(negotiate(known, codec_families(to), software_encoder(to))->Ok_0),
        is_word(negotiate(known, codec_families(to), software_encoder(to))->Ok_0),
{
    let e = negotiate(known, codec_families(to), software_encoder(to))->Ok_0;
    lemma_negotiated_source(known, codec_families(to), software_encoder(to));
    lemma_literals_flag_free();
    reveal_strlit("libx264");
    reveal_strlit("wmv2");
    reveal_strlit("libvpx");
    reveal_strlit("mpeg2video");
    reveal_strlit("mpeg4");
    reveal_strlit("libtheora");
    reveal_strlit("flv");
    reveal_strlit("msmpeg4v3");
    reveal_strlit("amv");
    reveal_strlit("gif");
    assert(is_word(software_encoder(to)));
    if e != software_encoder(to) {
        let f = choose|f: CodecFamily| known.contains_key(f) && known[f] == Some(e);
        lemma_candidate_flag_free(f, e);
    }
}

proof fn lemma_gif_filter_flag_free(fps: u32)
    ensures
        flag_free(gif_filter(fps)),
{
    reveal_strlit("fps=");
    let d = decimal(if fps < MAX_GIF_FPS { fps as nat } else { MAX_GIF_FPS as nat });
    let rest = ",scale=800:-1:flags=lanczos,split[s0][s1];[s0]palettegen=max_colors=64[p];[s1][p]paletteuse=dither=bayer"@;
    assert(gif_filter(fps) == "fps="@ + d + rest);
    assert(gif_filter(fps)[0] == 'f');
    lemma_flag_free(gif_filter(fps));
}

proof fn lemma_count_h264(enc: Seq<char>, width: u32, height: u32, pix_fmt: Seq<char>, fps: u32, x: Seq<char>)
    requires
        flag_free(enc),
        x == "-c:v"@ || x == "-c:a"@,
    ensures
        count(h264_args(enc, width, height, pix_fmt, fps), x) == 1,
{
    lemma_literals_flag_free();
    reveal_with_fuel(count_from, 5);
    let p1 = seq!["-c:v"@, enc];
    let p2: Seq<Seq<char>> = if is_high_bit_depth(pix_fmt) { seq!["-pix_fmt"@, "yuv420p"@] } else { Seq::empty() };
    let r: Seq<Seq<char>> = if fps > MAX_UHD_FPS { seq!["-r"@, "120"@] } else { Seq::empty() };
    let l = seq!["-level:v"@, "5.2"@];
    let p3: Seq<Seq<char>> = if is_uhd(width, height) { l + r } else { Seq::empty() };
    let p4: Seq<Seq<char>> = if width < MIN_WIDTH { seq!["-vf"@, "scale=160:-1"@] } else { Seq::empty() };
    let p5 = seq!["-c:a"@, "aac"@, "-strict"@, "experimental"@];
    lemma_count_concat(l, r, x);
    lemma_count_concat(p1, p2, x);
    lemma_count_concat(p1 + p2, p3, x);
    lemma_count_concat(p1 + p2 + p3, p4, x);
    lemma_count_concat(p1 + p2 + p3 + p4, p5, x);
    assert(h264_args(enc, width, height, pix_fmt, fps) == p1 + p2 + p3 + p4 + p5);
}

proof fn lemma_count_format(to: ConverterFormat, enc: Seq<char>, width: u32, height: u32, pix_fmt: Seq<char>, fps: u32, x: Seq<char>)
    requires
        !is_unsupported(to),
        flag_free(enc),
        x == "-c:v"@ || x == "-c:a"@,
    ensures
        to != ConverterFormat::GIF ==> count(format_args(to, enc, width, height, pix_fmt, fps), x) == 1,
        to == ConverterFormat::GIF ==> count(format_args(to, enc, width, height, pix_fmt, fps), x) == 0,
{
    lemma_literals_flag_free();
    if is_h264_family(to) {
        lemma_count_h264(enc, width, height, pix_fmt, fps, x);
    } else {
        lemma_gif_filter_flag_free(fps);
        reveal_with_fuel(count_from, 15);
    }
}

proof fn lemma_count_speed(to: ConverterFormat, speed: ConversionSpeed, enc: Seq<char>, bitrate: u64, x: Seq<char>)
    requires
        x == "-c:v"@ || x == "-c:a"@,
    ensures
        count(speed_args(to, speed, enc, bitrate), x) == 0,
{
    lemma_literals_flag_free();
    lemma_preset_flag_free(speed);
    lemma_decimal_first_digit(bitrate as nat);
    lemma_flag_free(decimal(bitrate as nat));
    reveal_with_fuel(count_from, 5);
    if to != ConverterFormat::GIF {
        let p: Seq<Seq<char>> = if enc == "libx264"@ { seq!["-preset"@, preset_name(speed)] } else { Seq::empty() };
        lemma_count_concat(p, seq!["-b:v"@, decimal(bitrate as nat)], x);
    }
}

/// Every supported target gets a non-empty argument list holding exactly one video-codec
/// flag and exactly one audio-codec flag, except animated images, whose list opens with a
/// filter graph and holds no codec flag; the two legacy targets always fail.
pub proof fn lemma_codec_flags(
    to: ConverterFormat,
    speed: ConversionSpeed,
    known: Map<CodecFamily, Option<Seq<char>>>,
    width: u32,
    height: u32,
    pix_fmt: Seq<char>,
    bitrate: u64,
    fps: u32,
)
    requires
        all_accelerated(known),
    ensures
        is_unsupported(to) ==> conversion_args(to, speed, known, width, height, pix_fmt, bitrate, fps)
            == Err::<Seq<Seq<char>>, PolicyError>(PolicyError::Unsupported(to)),
        conversion_args(to, speed, known, width, height, pix_fmt, bitrate, fps) is Ok ==> ({
            let args = conversion_args(to, speed, known, width, height, pix_fmt, bitrate, fps)->Ok_0;
            &&& args.len() > 0
            &&& to != ConverterFormat::GIF ==> count(args, "-c:v"@) == 1 && count(args, "-c:a"@) == 1
            &&& to == ConverterFormat::GIF ==> args[0] == "-filter_complex"@ && count(args, "-c:v"@) == 0
                && count(args, "-c:a"@) == 0
        }),
{
    if conversion_args(to, speed, known, width, height, pix_fmt, bitrate, fps) is Ok {
        let enc = negotiate(known, codec_families(to), software_encoder(to))->Ok_0;
        lemma_negotiated_flag_free(to, known);
        let fa = format_args(to, enc, width, height, pix_fmt, fps);
        let sa = speed_args(to, speed, enc, bitrate);
        lemma_count_format(to, enc, width, height, pix_fmt, fps, "-c:v"@);
        lemma_count_format(to, enc, width, height, pix_fmt, fps, "-c:a"@);
        lemma_count_speed(to, speed, enc, bitrate, "-c:v"@);
        lemma_count_speed(to, speed, enc, bitrate, "-c:a"@);
        lemma_count_concat(fa, sa, "-c:v"@);
        lemma_count_concat(fa, sa, "-c:a"@);
        assert(fa.len() > 0);
        assert((fa + sa)[0] == fa[0]);
    }
}

/// Whether `a` directly followed by `b` occurs in `args`.
pub open spec fn has_pair(args: Seq<Seq<char>>, a: Seq<char>, b: Seq<char>) -> bool {
    exists|i: int| 0 <= i && i + 1 < args.len() && #[trigger] args[i] == a && args[i + 1] == b
}

/// A 10- or 12-bit source sent to an H.264-family target is converted to 8-bit.
pub proof fn lemma_high_bit_depth_downconverted(
    to: ConverterFormat,
    speed: ConversionSpeed,
    known: Map<CodecFamily, Option<Seq<char>>>,
    width: u32,
    height: u32,
    pix_fmt: Seq<char>,
    bitrate: u64,
    fps: u32,
)
    requires
        is_h264_family(to),
        is_high_bit_depth(pix_fmt),
        conversion_args(to, speed, known, width, height, pix_fmt, bitrate, fps) is Ok,
    ensures
        has_pair(conversion_args(to, speed, known, width, height, pix_fmt, bitrate, fps)->Ok_0, "-pix_fmt"@, "yuv420p"@),
{
    let args = conversion_args(to, speed, known, width, height, pix_fmt, bitrate, fps)->Ok_0;
    assert(args[2] == "-pix_fmt"@ && args[3] == "yuv420p"@);
}

/// For 4K sources an H.264-family target gets a raised encoding level, and a frame-rate cap
/// of 120 where the source is faster; sources narrower than the minimum width are upscaled.
pub proof fn lemma_h264_size_rules(
    to: ConverterFormat,
    speed: ConversionSpeed,
    known: Map<CodecFamily, Option<Seq<char>>>,
    width: u32,
    height: u32,
    pix_fmt: Seq<char>,
    bitrate: u64,
    fps: u32,
)
    requires
        is_h264_family(to),
        conversion_args(to, speed, known, width, height, pix_fmt, bitrate, fps) is Ok,
    ensures
        ({
            let args = conversion_args(to, speed, known, width, height, pix_fmt, bitrate, fps)->Ok_0;
            &&& is_uhd(width, height) ==> has_pair(args, "-level:v"@, "5.2"@)
            &&& is_uhd(width, height) && fps > MAX_UHD_FPS ==> has_pair(args, "-r"@, "120"@)
            &&& width < MIN_WIDTH ==> has_pair(args, "-vf"@, "scale=160:-1"@)
        }),
{
    let args = conversion_args(to, speed, known, width, height, pix_fmt, bitrate, fps)->Ok_0;
    let k: int = if is_high_bit_depth(pix_fmt) { 4 } else { 2 };
    if is_uhd(width, height) {
        assert(args[k] == "-level:v"@ && args[k + 1] == "5.2"@);
        if fps > MAX_UHD_FPS {
            assert(args[k + 2] == "-r"@ && args[k + 3] == "120"@);
        }
    }
    if width < MIN_WIDTH {
        let j: int = k + if is_uhd(width, height) { if fps > MAX_UHD_FPS { 4int } else { 2int } } else { 0int };
        assert(args[j] == "-vf"@ && args[j + 1] == "scale=160:-1"@);
    }
}

/// Whether `flag` occurs directly followed by a non-empty argument.
pub open spec fn has_value(args: Seq<Seq<char>>, flag: Seq<char>) -> bool {
    exists|i: int| 0 <= i && i + 1 < args.len() && #[trigger] args[i] == flag && args[i + 1].len() > 0
}

proof fn lemma_has_value_prefix(a: Seq<Seq<char>>, b: Seq<Seq<char>>, flag: Seq<char>, i: int)
    requires
        0 <= i && i + 1 < a.len(),
        a[i] == flag,
        a[i + 1].len() > 0,
    ensures
        has_value(a + b, flag),
{
    assert((a + b)[i] == a[i]);
    assert((a + b)[i + 1] == a[i + 1]);
}

proof fn lemma_codec_values(to: ConverterFormat, enc: Seq<char>, width: u32, height: u32, pix_fmt: Seq<char>, fps: u32, rest: Seq<Seq<char>>)
    requires
        !is_unsupported(to),
        to != ConverterFormat::GIF,
        is_word(enc),
    ensures
        has_value(format_args(to, enc, width, height, pix_fmt, fps) + rest, "-c:v"@),
        has_value(format_args(to, enc, width, height, pix_fmt, fps) + rest, "-c:a"@),
{
    reveal_strlit("mpeg4");
    reveal_strlit("libtheora");
    reveal_strlit("flv");
    reveal_strlit("msmpeg4v3");
    reveal_strlit("amv");
    reveal_strlit("aac");
    reveal_strlit("wmav2");
    reveal_strlit("libvorbis");
    reveal_strlit("libmp3lame");
    reveal_strlit("mp2");
    reveal_strlit("pcm_s16le");
    reveal_strlit("adpcm_ima_amv");
    let fa = format_args(to, enc, width, height, pix_fmt, fps);
    if is_h264_family(to) {
        let p1 = seq!["-c:v"@, enc];
        let p2: Seq<Seq<char>> = if is_high_bit_depth(pix_fmt) { seq!["-pix_fmt"@, "yuv420p"@] } else { Seq::empty() };
        let r: Seq<Seq<char>> = if fps > MAX_UHD_FPS { seq!["-r"@, "120"@] } else { Seq::empty() };
        let p3: Seq<Seq<char>> = if is_uhd(width, height) { seq!["-level:v"@, "5.2"@] + r } else { Seq::empty() };
        let p4: Seq<Seq<char>> = if width < MIN_WIDTH { seq!["-vf"@, "scale=160:-1"@] } else { Seq::empty() };
        let p5 = seq!["-c:a"@, "aac"@, "-strict"@, "experimental"@];
        let head = p1 + p2 + p3 + p4;
        assert(fa == head + p5);
        assert(fa[0] == "-c:v"@ && fa[1] == enc);
        lemma_has_value_prefix(fa, rest, "-c:v"@, 0);
        let j = head.len() as int;
        assert(fa[j] == p5[0] && fa[j + 1] == p5[1]);
        lemma_has_value_prefix(fa, rest, "-c:a"@, j);
    } else if to == ConverterFormat::DIVX || to == ConverterFormat::SWF {
        lemma_has_value_prefix(fa, rest, "-c:v"@, 2);
        lemma_has_value_prefix(fa, rest, "-c:a"@, 4);
    } else {
        lemma_has_value_prefix(fa, rest, "-c:v"@, 0);
        lemma_has_value_prefix(fa, rest, "-c:a"@, 2);
    }
}

/// Each codec flag of a supported target other than animated images is directly followed
/// by a non-empty codec name.
pub proof fn lemma_codec_names(
    to: ConverterFormat,
    speed: ConversionSpeed,
    known: Map<CodecFamily, Option<Seq<char>>>,
    width: u32,
    height: u32,
    pix_fmt: Seq<char>,
    bitrate: u64,
    fps: u32,
)
    requires
        all_accelerated(known),
        to != ConverterFormat::GIF,
        conversion_args(to, speed, known, width, height, pix_fmt, bitrate, fps) is Ok,
    ensures
        has_value(conversion_args(to, speed, known, width, height, pix_fmt, bitrate, fps)->Ok_0, "-c:v"@),
        has_value(conversion_args(to, speed, known, width, height, pix_fmt, bitrate, fps)->Ok_0, "-c:a"@),
{
    let enc = negotiate(known, codec_families(to), software_encoder(to))->Ok_0;
    lemma_negotiated_flag_free(to, known);
    lemma_codec_values(to, enc, width, height, pix_fmt, fps, speed_args(to, speed, enc, bitrate));
}

proof fn lemma_not_rate_flag(a: Seq<char>)
    requires
        a.len() != 2 || a[0] != '-' || a[1] != 'r',
    ensures
        a != "-r"@,
{
    reveal_strlit("-r");
    if a == "-r"@ {
        assert(a[0] == '-' && a[1] == 'r');
    }
}

/// An H.264-family target gets no frame-rate cap unless the source is 4K and faster than the
/// cap.
pub proof fn lemma_h264_no_rate_cap(
    to: ConverterFormat,
    speed: ConversionSpeed,
    known: Map<CodecFamily, Option<Seq<char>>>,
    width: u32,
    height: u32,
    pix_fmt: Seq<char>,
    bitrate: u64,
    fps: u32,
)
    requires
        all_accelerated(known),
        is_h264_family(to),
        !(is_uhd(width, height) && fps > MAX_UHD_FPS),
        conversion_args(to, speed, known, width, height, pix_fmt, bitrate, fps) is Ok,
    ensures
        count(conversion_args(to, speed, known, width, height, pix_fmt, bitrate, fps)->Ok_0, "-r"@) == 0,
{
    let enc = negotiate(known, codec_families(to), software_encoder(to))->Ok_0;
    lemma_negotiated_flag_free(to, known);
    let x = "-r"@;
    reveal_strlit("-c:v");
    reveal_strlit("-c:a");
    reveal_strlit("-pix_fmt");
    reveal_strlit("yuv420p");
    reveal_strlit("-level:v");
    reveal_strlit("5.2");
    reveal_strlit("-vf");
    reveal_strlit("scale=160:-1");
    reveal_strlit("aac");
    reveal_strlit("-strict");
    reveal_strlit("experimental");
    reveal_strlit("-preset");
    reveal_strlit("-b:v");
    lemma_not_rate_flag("-c:v"@);
    lemma_not_rate_flag("-c:a"@);
    lemma_not_rate_flag("-pix_fmt"@);
    lemma_not_rate_flag("yuv420p"@);
    lemma_not_rate_flag("-level:v"@);
    lemma_not_rate_flag("5.2"@);
    lemma_not_rate_flag("-vf"@);
    lemma_not_rate_flag("scale=160:-1"@);
    lemma_not_rate_flag("aac"@);
    lemma_not_rate_flag("-strict"@);
    lemma_not_rate_flag("experimental"@);
    lemma_not_rate_flag("-preset"@);
    lemma_not_rate_flag("-b:v"@);
    lemma_not_rate_flag(enc);
    lemma_preset_flag_free(speed);
    lemma_not_rate_flag(preset_name(speed));
    lemma_decimal_first_digit(bitrate as nat);
    lemma_not_rate_flag(decimal(bitrate as nat));
    reveal_with_fuel(count_from, 5);
    let p1 = seq!["-c:v"@, enc];
    let p2: Seq<Seq<char>> = if is_high_bit_depth(pix_fmt) { seq!["-pix_fmt"@, "yuv420p"@] } else { Seq::empty() };
    let p3: Seq<Seq<char>> = if is_uhd(width, height) { seq!["-level:v"@, "5.2"@] } else { Seq::empty() };
    let p4: Seq<Seq<char>> = if width < MIN_WIDTH { seq!["-vf"@, "scale=160:-1"@] } else { Seq::empty() };
    let p5 = seq!["-c:a"@, "aac"@, "-strict"@, "experimental"@];
    if is_uhd(width, height) {
        assert(seq!["-level:v"@, "5.2"@] + Seq::<Seq<char>>::empty() =~= p3);
    }
    assert(h264_args(enc, width, height, pix_fmt, fps) == p1 + p2 + p3 + p4 + p5);
    lemma_count_concat(p1, p2, x);
    lemma_count_concat(p1 + p2, p3, x);
    lemma_count_concat(p1 + p2 + p3, p4, x);
    lemma_count_concat(p1 + p2 + p3 + p4, p5, x);
    let pre: Seq<Seq<char>> = if enc == "libx264"@ { seq!["-preset"@, preset_name(speed)] } else { Seq::empty() };
    let rate = seq!["-b:v"@, decimal(bitrate as nat)];
    lemma_count_concat(pre, rate, x);
    lemma_count_concat(h264_args(enc, width, height, pix_fmt, fps), pre + rate, x);
}

} // verus!
