//! Creating a job from an uploaded file: its extension decides its source format.
use vstd::prelude::*;
use crate::format::{CompressorFormat, ConverterFormat, JobType, compressor_name, format_name};
use crate::job::{CompressionJob, ConversionJob, Job, JobState};
use crate::text::{split, split_str, views};

verus! {

/// Why an upload was refused.
pub enum UploadError {
    GetField(String),
    NoFilename,
    NoExtension,
    InvalidExtension(String),
    GetChunk,
    WriteFile(String),
    ParseFile(String),
}

impl UploadError {
    /// The HTTP status that answers this error.
    pub fn status_code(&self) -> (r: u16)
        ensures
            r == match self {
                UploadError::GetChunk | UploadError::WriteFile(_) => 500u16,
                _ => 400u16,
            },
    {
        match self {
            UploadError::GetChunk | UploadError::WriteFile(_) => 500,
            _ => 400,
        }
    }

    /// The text shown to the client.
    pub fn message(&self) -> (r: String)
        ensures
            r@ == match self {
                UploadError::GetField(_) => "failed to get field"@,
                UploadError::NoFilename => "no filename provided"@,
                UploadError::NoExtension => "missing file extension"@,
                UploadError::InvalidExtension(e) => "invalid file extension: "@ + e@ + "."@,
                UploadError::GetChunk => "failed to read file data"@,
                UploadError::WriteFile(_) => "internal server error while writing file"@,
                UploadError::ParseFile(e) => "ffprobe failed to read file: "@ + e@,
            },
    {
        match self {
            UploadError::GetField(_) => String::from_str("failed to get field"),
            UploadError::NoFilename => String::from_str("no filename provided"),
            UploadError::NoExtension => String::from_str("missing file extension"),
            UploadError::InvalidExtension(e) => String::from_str("invalid file extension: ").concat(e.as_str()).concat("."),
            UploadError::GetChunk => String::from_str("failed to read file data"),
            UploadError::WriteFile(_) => String::from_str("internal server error while writing file"),
            UploadError::ParseFile(e) => String::from_str("ffprobe failed to read file: ").concat(e.as_str()),
        }
    }
}

/// Whether `c` is an ASCII letter or digit.
pub open spec fn is_alnum(c: char) -> bool {
    ('a' <= c && c <= 'z') || ('A' <= c && c <= 'Z') || ('0' <= c && c <= '9')
}

/// The letters and digits of `s`, in order.
pub open spec fn alnum_only(s: Seq<char>) -> Seq<char> {
    s.filter(|c: char| is_alnum(c))
}

/// The extension of a file name: what follows its last dot (the whole name if there is
/// none), letters and digits only.
pub open spec fn extension(name: Seq<char>) -> Seq<char> {
    alnum_only(split(name, '.').last())
}

/// Computes the extension of a file name.
pub fn extension_of(name: &str) -> (r: String)
    ensures
        r@ == extension(name@),
{
    let parts = split_str(name, '.');
    proof {
        crate::text::lemma_split_nonempty(name@, '.');
    }
    let last = parts[parts.len() - 1].as_str();
    assert(views(parts@).last() == last@);
    let n = last.unicode_len();
    let mut out = String::new();
    let mut i: usize = 0;
    assert(last@.subrange(0, 0) =~= Seq::<char>::empty());
    while i < n
        invariant
            n == last@.len(),
            i <= n,
            out@ == alnum_only(last@.subrange(0, i as int)),
        decreases n - i,
    {
        let c = last.get_char(i);
        let keep = ('a' <= c && c <= 'z') || ('A' <= c && c <= 'Z') || ('0' <= c && c <= '9');
        proof {
            let pre = last@.subrange(0, i as int);
            assert(last@.subrange(0, i as int + 1) =~= pre.push(c));
            crate::text::lemma_filter_push(pre, |c: char| is_alnum(c), c);
        }
        if keep {
            out.append(last.substring_char(i, i + 1));
        }
        i = i + 1;
    }
    assert(last@.subrange(0, n as int) =~= last@);
    out
}

/// Creates the job for an uploaded file: a conversion from the format its extension
/// names, or a compression of it. Fails without a file name, or with an extension that
/// names no format the job kind accepts.
pub fn create_job(filename: Option<String>, job_type: JobType, token: String) -> (r: Result<Job, UploadError>)
    ensures
        match filename {
            None => r matches Err(UploadError::NoFilename),
            Some(name) => match job_type {
                JobType::Conversion => match r {
                    Ok(Job::Conversion(j)) => {
                        &&& j.from@ == extension(name@)
                        &&& exists|f: ConverterFormat| format_name(f) == extension(name@)
                        &&& j.auth@ == token@ && j.to is None && j.state == JobState::Processing
                    },
                    Err(UploadError::InvalidExtension(e)) => e@ == extension(name@)
                        && forall|f: ConverterFormat| format_name(f) != extension(name@),
                    _ => false,
                },
                JobType::Compression => match r {
                    Ok(Job::Compression(j)) => {
                        &&& compressor_name(j.format) == extension(name@)
                        &&& j.auth@ == token@ && j.target_size_kb is None && j.state == JobState::Processing
                    },
                    Err(UploadError::InvalidExtension(e)) => e@ == extension(name@)
                        && forall|f: CompressorFormat| compressor_name(f) != extension(name@),
                    _ => false,
                },
            },
        },
{
    let name = match filename {
        Some(n) => n,
        None => {
            return Err(UploadError::NoFilename);
        },
    };
    let ext = extension_of(name.as_str());
    match job_type {
        JobType::Conversion => match ConverterFormat::from_name(ext.as_str()) {
            Some(f) => Ok(Job::Conversion(ConversionJob::new(token, String::from_str(f.name())))),
            None => Err(UploadError::InvalidExtension(ext)),
        },
        JobType::Compression => match CompressorFormat::from_name(ext.as_str()) {
            Some(f) => Ok(Job::Compression(CompressionJob::new(token, f))),
            None => Err(UploadError::InvalidExtension(ext)),
        },
    }
}

} // verus!
