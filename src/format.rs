//! The media formats that jobs read and write, and their textual names.
use vstd::prelude::*;
use crate::text::str_eq;

verus! {

/// A container or codec that a conversion can produce or read.
#[derive(Clone, Copy, Debug, PartialEq, Eq, Structural)]
pub enum ConverterFormat {
    MP4,
    WebM,
    GIF,
    AVI,
    MKV,
    WMV,
    MOV,
    MTS,
    TS,
    M2TS,
    MPEG,
    MPG,
    FLV,
    F4V,
    VOB,
    M4V,
    ThreeGP,
    ThreeG2,
    MXF,
    OGV,
    RM,
    RMVB,
    H264,
    DIVX,
    SWF,
    AMV,
    ASF,
    NUT,
}

/// The name of a format, as it appears in file extensions and in session messages.
pub open spec fn format_name(f: ConverterFormat) -> Seq<char> {
    match f {
        ConverterFormat::MP4 => "mp4"@,
        ConverterFormat::WebM => "webm"@,
        ConverterFormat::GIF => "gif"@,
        ConverterFormat::AVI => "avi"@,
        ConverterFormat::MKV => "mkv"@,
        ConverterFormat::WMV => "wmv"@,
        ConverterFormat::MOV => "mov"@,
        ConverterFormat::MTS => "mts"@,
        ConverterFormat::TS => "ts"@,
        ConverterFormat::M2TS => "m2ts"@,
        ConverterFormat::MPEG => "mpeg"@,
        ConverterFormat::MPG => "mpg"@,
        ConverterFormat::FLV => "flv"@,
        ConverterFormat::F4V => "f4v"@,
        ConverterFormat::VOB => "vob"@,
        ConverterFormat::M4V => "m4v"@,
        ConverterFormat::ThreeGP => "3gp"@,
        ConverterFormat::ThreeG2 => "3g2"@,
        ConverterFormat::MXF => "mxf"@,
        ConverterFormat::OGV => "ogv"@,
        ConverterFormat::RM => "rm"@,
        ConverterFormat::RMVB => "rmvb"@,
        ConverterFormat::H264 => "h264"@,
        ConverterFormat::DIVX => "divx"@,
        ConverterFormat::SWF => "swf"@,
        ConverterFormat::AMV => "amv"@,
        ConverterFormat::ASF => "asf"@,
        ConverterFormat::NUT => "nut"@,
    }
}

impl ConverterFormat {
    /// The name of the format (its file extension).
    pub fn name(&self) -> (r: &'static str)
        ensures
            r@ == format_name(*self),
    {
        match self {
            ConverterFormat::MP4 => "mp4",
            ConverterFormat::WebM => "webm",
            ConverterFormat::GIF => "gif",
            ConverterFormat::AVI => "avi",
            ConverterFormat::MKV => "mkv",
            ConverterFormat::WMV => "wmv",
            ConverterFormat::MOV => "mov",
            ConverterFormat::MTS => "mts",
            ConverterFormat::TS => "ts",
            ConverterFormat::M2TS => "m2ts",
            ConverterFormat::MPEG => "mpeg",
            ConverterFormat::MPG => "mpg",
            ConverterFormat::FLV => "flv",
            ConverterFormat::F4V => "f4v",
            ConverterFormat::VOB => "vob",
            ConverterFormat::M4V => "m4v",
            ConverterFormat::ThreeGP => "3gp",
            ConverterFormat::ThreeG2 => "3g2",
            ConverterFormat::MXF => "mxf",
            ConverterFormat::OGV => "ogv",
            ConverterFormat::RM => "rm",
            ConverterFormat::RMVB => "rmvb",
            ConverterFormat::H264 => "h264",
            ConverterFormat::DIVX => "divx",
            ConverterFormat::SWF => "swf",
            ConverterFormat::AMV => "amv",
            ConverterFormat::ASF => "asf",
            ConverterFormat::NUT => "nut",
        }
    }

    /// The format whose name is `s`, if any (names are case-sensitive).
    pub fn from_name(s: &str) -> (r: Option<ConverterFormat>)
        ensures
            match r {
                Some(f) => format_name(f) == s@,
                None => forall|f: ConverterFormat| format_name(f) != s@,
            },
    {
        parse_converter_format(s)
    }
}

fn parse_converter_format(s: &str) -> (r: Option<ConverterFormat>)
    ensures
        match r {
            Some(f) => format_name(f) == s@,
            None => forall|f: ConverterFormat| format_name(f) != s@,
        },
{
    if str_eq(s, "mp4") {
        return Some(ConverterFormat::MP4);
    }
    if str_eq(s, "webm") {
        return Some(ConverterFormat::WebM);
    }
    if str_eq(s, "gif") {
        return Some(ConverterFormat::GIF);
    }
    if str_eq(s, "avi") {
        return Some(ConverterFormat::AVI);
    }
    if str_eq(s, "mkv") {
        return Some(ConverterFormat::MKV);
    }
    if str_eq(s, "wmv") {
        return Some(ConverterFormat::WMV);
    }
    if str_eq(s, "mov") {
        return Some(ConverterFormat::MOV);
    }
    if str_eq(s, "mts") {
        return Some(ConverterFormat::MTS);
    }
    if str_eq(s, "ts") {
        return Some(ConverterFormat::TS);
    }
    if str_eq(s, "m2ts") {
        return Some(ConverterFormat::M2TS);
    }
    if str_eq(s, "mpeg") {
        return Some(ConverterFormat::MPEG);
    }
    if str_eq(s, "mpg") {
        return Some(ConverterFormat::MPG);
    }
    if str_eq(s, "flv") {
        return Some(ConverterFormat::FLV);
    }
    if str_eq(s, "f4v") {
        return Some(ConverterFormat::F4V);
    }
    if str_eq(s, "vob") {
        return Some(ConverterFormat::VOB);
    }
    if str_eq(s, "m4v") {
        return Some(ConverterFormat::M4V);
    }
    if str_eq(s, "3gp") {
        return Some(ConverterFormat::ThreeGP);
    }
    if str_eq(s, "3g2") {
        return Some(ConverterFormat::ThreeG2);
    }
    if str_eq(s, "mxf") {
        return Some(ConverterFormat::MXF);
    }
    if str_eq(s, "ogv") {
        return Some(ConverterFormat::OGV);
    }
    if str_eq(s, "rm") {
        return Some(ConverterFormat::RM);
    }
    if str_eq(s, "rmvb") {
        return Some(ConverterFormat::RMVB);
    }
    if str_eq(s, "h264") {
        return Some(ConverterFormat::H264);
    }
    if str_eq(s, "divx") {
        return Some(ConverterFormat::DIVX);
    }
    if str_eq(s, "swf") {
        return Some(ConverterFormat::SWF);
    }
    if str_eq(s, "amv") {
        return Some(ConverterFormat::AMV);
    }
    if str_eq(s, "asf") {
        return Some(ConverterFormat::ASF);
    }
    if str_eq(s, "nut") {
        return Some(ConverterFormat::NUT);
    }
    None
}

/// The formats that a size-constrained compression can produce.
#[derive(Clone, Copy, Debug, PartialEq, Eq, Structural)]
pub enum CompressorFormat {
    MP4,
}

/// The name of a compression format.
pub open spec fn compressor_name(f: CompressorFormat) -> Seq<char> {
    match f {
        CompressorFormat::MP4 => "mp4"@,
    }
}

impl CompressorFormat {
    /// The name of the format (its file extension).
    pub fn name(&self) -> (r: &'static str)
        ensures
            r@ == compressor_name(*self),
    {
        match self {
            CompressorFormat::MP4 => "mp4",
        }
    }

    /// The format whose name is `s`, if any.
    pub fn from_name(s: &str) -> (r: Option<CompressorFormat>)
        ensures
            match r {
                Some(f) => compressor_name(f) == s@,
                None => forall|f: CompressorFormat| compressor_name(f) != s@,
            },
    {
        if str_eq(s, "mp4") {
            Some(CompressorFormat::MP4)
        } else {
            None
        }
    }
}

/// Which kind of job an upload creates.
#[derive(Clone, Copy, Debug, PartialEq, Eq, Structural)]
pub enum JobType {
    Conversion,
    Compression,
}

/// The speed/quality trade-off that a conversion asks of a software encoder.
#[derive(Clone, Copy, Debug, PartialEq, Eq, Structural)]
pub enum ConversionSpeed {
    UltraFast,
    SuperFast,
    VeryFast,
    Faster,
    Fast,
    Medium,
    Slow,
    Slower,
    VerySlow,
}

/// The encoder preset that a speed stands for.
pub open spec fn preset_name(s: ConversionSpeed) -> Seq<char> {
    match s {
        ConversionSpeed::UltraFast => "ultrafast"@,
        ConversionSpeed::SuperFast => "superfast"@,
        ConversionSpeed::VeryFast => "veryfast"@,
        ConversionSpeed::Faster => "faster"@,
        ConversionSpeed::Fast => "fast"@,
        ConversionSpeed::Medium => "medium"@,
        ConversionSpeed::Slow => "slow"@,
        ConversionSpeed::Slower => "slower"@,
        ConversionSpeed::VerySlow => "veryslow"@,
    }
}

impl ConversionSpeed {
    /// The encoder preset that this speed stands for.
    pub fn preset(&self) -> (r: &'static str)
        ensures
            r@ == preset_name(*self),
    {
        match self {
            ConversionSpeed::UltraFast => "ultrafast",
            ConversionSpeed::SuperFast => "superfast",
            ConversionSpeed::VeryFast => "veryfast",
            ConversionSpeed::Faster => "faster",
            ConversionSpeed::Fast => "fast",
            ConversionSpeed::Medium => "medium",
            ConversionSpeed::Slow => "slow",
            ConversionSpeed::Slower => "slower",
            ConversionSpeed::VerySlow => "veryslow",
        }
    }

    /// The speed whose preset name is `s`, if any.
    pub fn from_name(s: &str) -> (r: Option<ConversionSpeed>)
        ensures
            match r {
                Some(v) => preset_name(v) == s@,
                None => forall|v: ConversionSpeed| preset_name(v) != s@,
            },
    {
        if str_eq(s, "ultrafast") {
            return Some(ConversionSpeed::UltraFast);
        }
        if str_eq(s, "superfast") {
            return Some(ConversionSpeed::SuperFast);
        }
        if str_eq(s, "veryfast") {
            return Some(ConversionSpeed::VeryFast);
        }
        if str_eq(s, "faster") {
            return Some(ConversionSpeed::Faster);
        }
        if str_eq(s, "fast") {
            return Some(ConversionSpeed::Fast);
        }
        if str_eq(s, "medium") {
            return Some(ConversionSpeed::Medium);
        }
        if str_eq(s, "slow") {
            return Some(ConversionSpeed::Slow);
        }
        if str_eq(s, "slower") {
            return Some(ConversionSpeed::Slower);
        }
        if str_eq(s, "veryslow") {
            return Some(ConversionSpeed::VerySlow);
        }
        None
    }
}

} // verus!
