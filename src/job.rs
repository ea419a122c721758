//! The job entity: its two variants, its one-way state, its memoized probe results, and
//! the names of the files that belong to it.
use vstd::prelude::*;
use crate::format::{CompressorFormat, compressor_name};
use crate::ident::{id_text, new_job_id, uuid_text};
use crate::probe::{
    ProbeError, bitrate_or_default, default_bitrate_for, fps_of, frames_from_rate,
    frames_from_rate_of, packet_count_of, get_fps, get_total_frames, reported_bitrate,
};

verus! {

/// Where a job stands. It only ever moves from `Processing` to one of the others.
#[derive(Clone, Copy, Debug, PartialEq, Eq, Structural)]
pub enum JobState {
    Processing,
    Completed,
    Failed,
}

/// Whether a job may move from state `a` to state `b`.
pub open spec fn may_move(a: JobState, b: JobState) -> bool {
    a == b || a == JobState::Processing
}

/// Probe results of a source, each computed at most once and then kept.
pub struct ProbeCache {
    total_frames: Option<u64>,
    bitrate: Option<u64>,
    fps: Option<u32>,
}

impl View for ProbeCache {
    /// The cached total frame count, bitrate and frame rate.
    type V = (Option<u64>, Option<u64>, Option<u32>);

    closed spec fn view(&self) -> (Option<u64>, Option<u64>, Option<u32>) {
        (self.total_frames, self.bitrate, self.fps)
    }
}

impl ProbeCache {
    /// An identical copy.
    pub fn snapshot(&self) -> (r: ProbeCache)
        ensures
            r == *self,
    {
        ProbeCache { total_frames: self.total_frames, bitrate: self.bitrate, fps: self.fps }
    }

    /// A cache holding nothing.
    pub fn new() -> (r: ProbeCache)
        ensures
            r@ == (None::<u64>, None::<u64>, None::<u32>),
    {
        ProbeCache { total_frames: None, bitrate: None, fps: None }
    }

    /// The cached total frame count.
    pub fn cached_total_frames(&self) -> (r: Option<u64>)
        ensures
            r == self@.0,
    {
        self.total_frames
    }

    /// The cached bitrate.
    pub fn cached_bitrate(&self) -> (r: Option<u64>)
        ensures
            r == self@.1,
    {
        self.bitrate
    }

    /// The cached frame rate.
    pub fn cached_fps(&self) -> (r: Option<u32>)
        ensures
            r == self@.2,
    {
        self.fps
    }

    /// The total frame count: the cached one if any; else the packet count in `packets`,
    /// or, where that states none, the product of rate and duration in `rate_and_duration`.
    /// A count found is kept.
    pub fn total_frames(&mut self, packets: &str, rate_and_duration: &str) -> (r: Result<u64, ProbeError>)
        ensures
            old(self)@.0 is Some ==> r == Ok::<u64, ProbeError>(old(self)@.0.unwrap()) && final(self)@ == old(self)@,
            old(self)@.0 is None ==> r == match packet_count_of(packets@) {
                Some(n) => Ok(n),
                None => frames_from_rate_of(rate_and_duration@),
            },
            old(self)@.0 is None ==> final(self)@ == (match r { Ok(n) => Some(n), Err(_) => None }, old(self)@.1, old(self)@.2),
    {
        if let Some(n) = self.total_frames {
            return Ok(n);
        }
        let r = match get_total_frames(packets) {
            Some(n) => Ok(n),
            None => frames_from_rate(rate_and_duration),
        };
        if let Ok(n) = r {
            self.total_frames = Some(n);
        }
        r
    }

    /// The source bitrate: the cached one if any; else the one `out` reports, or the
    /// default for the source's size. The value is kept.
    pub fn bitrate(&mut self, out: &str, width: u32, height: u32) -> (r: u64)
        ensures
            old(self)@.1 is Some ==> r == old(self)@.1.unwrap() && final(self)@ == old(self)@,
            old(self)@.1 is None ==> r == match reported_bitrate(out@) {
                Some(b) => b,
                None => default_bitrate_for(width, height),
            },
            final(self)@ == (old(self)@.0, Some(r), old(self)@.2),
    {
        if let Some(b) = self.bitrate {
            return b;
        }
        let b = bitrate_or_default(out, width, height);
        self.bitrate = Some(b);
        b
    }

    /// The source frame rate: the cached one if any; else the one `out` reports (see
    /// `get_fps`). The value is kept.
    pub fn fps(&mut self, out: &str) -> (r: u32)
        ensures
            old(self)@.2 is Some ==> r == old(self)@.2.unwrap() && final(self)@ == old(self)@,
            old(self)@.2 is None ==> r as nat == fps_of(out@),
            final(self)@ == (old(self)@.0, old(self)@.1, Some(r)),
    {
        if let Some(f) = self.fps {
            return f;
        }
        let f = get_fps(out);
        self.fps = Some(f);
        f
    }
}

/// `input/<id>.<ext>`: where a job's source is stored.
pub open spec fn input_path_of(id: u128, ext: Seq<char>) -> Seq<char> {
    "input/"@ + uuid_text(id) + "."@ + ext
}

/// `output/<id>.<ext>`: where a job's result is written.
pub open spec fn output_path_of(id: u128, ext: Seq<char>) -> Seq<char> {
    "output/"@ + uuid_text(id) + "."@ + ext
}

/// `output/<id>`: the prefix of a compression's pass log.
pub open spec fn pass_log_path_of(id: u128) -> Seq<char> {
    "output/"@ + uuid_text(id)
}

/// Builds `input/<id>.<ext>`.
pub fn input_path(id: u128, ext: &str) -> (r: String)
    ensures
        r@ == input_path_of(id, ext@),
{
    let t = id_text(id);
    String::from_str("input/").concat(t.as_str()).concat(".").concat(ext)
}

/// Builds `output/<id>.<ext>`.
pub fn output_path(id: u128, ext: &str) -> (r: String)
    ensures
        r@ == output_path_of(id, ext@),
{
    let t = id_text(id);
    String::from_str("output/").concat(t.as_str()).concat(".").concat(ext)
}

/// Builds `output/<id>`.
pub fn pass_log_path(id: u128) -> (r: String)
    ensures
        r@ == pass_log_path_of(id),
{
    let t = id_text(id);
    String::from_str("output/").concat(t.as_str())
}

/// A job that converts a source into another format.
pub struct ConversionJob {
    pub id: u128,
    pub auth: String,
    /// The source format's name.
    pub from: String,
    /// The target format's name, once the session has given it.
    pub to: Option<String>,
    pub state: JobState,
    pub probe: ProbeCache,
}

impl ConversionJob {
    /// An identical copy.
    pub fn snapshot(&self) -> (r: ConversionJob)
        ensures
            r == *self,
    {
        let to = match &self.to {
            Some(t) => Some(t.clone()),
            None => None,
        };
        ConversionJob {
            id: self.id,
            auth: self.auth.clone(),
            from: self.from.clone(),
            to,
            state: self.state,
            probe: self.probe.snapshot(),
        }
    }

    /// A new conversion job with a fresh identifier, in `Processing`, with no target yet.
    pub fn new(auth_token: String, from: String) -> (r: ConversionJob)
        ensures
            r.auth@ == auth_token@,
            r.from@ == from@,
            r.to is None,
            r.state == JobState::Processing,
            r.probe@ == (None::<u64>, None::<u64>, None::<u32>),
    {
        ConversionJob {
            id: new_job_id(),
            auth: auth_token,
            from,
            to: None,
            state: JobState::Processing,
            probe: ProbeCache::new(),
        }
    }

    /// Where the source is stored.
    pub fn input_path(&self) -> (r: String)
        ensures
            r@ == input_path_of(self.id, self.from@),
    {
        input_path(self.id, self.from.as_str())
    }

    /// Where the result is written, once the target is known.
    pub fn output_path(&self) -> (r: Option<String>)
        ensures
            match self.to {
                Some(t) => r is Some && r.unwrap()@ == output_path_of(self.id, t@),
                None => r is None,
            },
    {
        match &self.to {
            Some(t) => Some(output_path(self.id, t.as_str())),
            None => None,
        }
    }

    /// See `ProbeCache::total_frames`.
    pub fn total_frames(&mut self, packets: &str, rate_and_duration: &str) -> (r: Result<u64, ProbeError>)
        ensures
            old(self).probe@.0 is Some ==> r == Ok::<u64, ProbeError>(old(self).probe@.0.unwrap()),
            old(self).probe@.0 is None ==> r == match packet_count_of(packets@) {
                Some(n) => Ok(n),
                None => frames_from_rate_of(rate_and_duration@),
            },
            r is Ok ==> final(self).probe@.0 == Some(r.unwrap()),
            final(self).id == old(self).id && final(self).state == old(self).state,
    {
        self.probe.total_frames(packets, rate_and_duration)
    }

    /// See `ProbeCache::bitrate`.
    pub fn bitrate(&mut self, out: &str, width: u32, height: u32) -> (r: u64)
        ensures
            old(self).probe@.1 is Some ==> r == old(self).probe@.1.unwrap(),
            old(self).probe@.1 is None ==> r == match reported_bitrate(out@) {
                Some(b) => b,
                None => default_bitrate_for(width, height),
            },
            final(self).probe@ == (old(self).probe@.0, Some(r), old(self).probe@.2),
            final(self).id == old(self).id && final(self).state == old(self).state,
    {
        self.probe.bitrate(out, width, height)
    }

    /// See `ProbeCache::fps`.
    pub fn fps(&mut self, out: &str) -> (r: u32)
        ensures
            old(self).probe@.2 is Some ==> r == old(self).probe@.2.unwrap(),
            old(self).probe@.2 is None ==> r as nat == fps_of(out@),
            final(self).probe@ == (old(self).probe@.0, old(self).probe@.1, Some(r)),
            final(self).id == old(self).id && final(self).state == old(self).state,
    {
        self.probe.fps(out)
    }

    /// The bitrate and the frame rate together.
    pub fn bitrate_and_fps(&mut self, bitrate_out: &str, width: u32, height: u32, fps_out: &str) -> (r: (u64, u32))
        ensures
            old(self).probe@.1 is Some ==> r.0 == old(self).probe@.1.unwrap(),
            old(self).probe@.1 is None ==> r.0 == match reported_bitrate(bitrate_out@) {
                Some(b) => b,
                None => default_bitrate_for(width, height),
            },
            old(self).probe@.2 is Some ==> r.1 == old(self).probe@.2.unwrap(),
            old(self).probe@.2 is None ==> r.1 as nat == fps_of(fps_out@),
            final(self).probe@.1 == Some(r.0) && final(self).probe@.2 == Some(r.1),
    {
        let b = self.bitrate(bitrate_out, width, height);
        let f = self.fps(fps_out);
        (b, f)
    }
}

/// A job that re-encodes a source to fit a size budget.
pub struct CompressionJob {
    pub id: u128,
    pub auth: String,
    /// The video budget in kilobits, once the session has given the size.
    pub target_size_kb: Option<u64>,
    pub state: JobState,
    pub format: CompressorFormat,
    pub probe: ProbeCache,
}

impl CompressionJob {
    /// An identical copy.
    pub fn snapshot(&self) -> (r: CompressionJob)
        ensures
            r == *self,
    {
        CompressionJob {
            id: self.id,
            auth: self.auth.clone(),
            target_size_kb: self.target_size_kb,
            state: self.state,
            format: self.format,
            probe: self.probe.snapshot(),
        }
    }

    /// A new compression job with a fresh identifier, in `Processing`.
    pub fn new(auth_token: String, from: CompressorFormat) -> (r: CompressionJob)
        ensures
            r.auth@ == auth_token@,
            r.format == from,
            r.target_size_kb is None,
            r.state == JobState::Processing,
            r.probe@ == (None::<u64>, None::<u64>, None::<u32>),
    {
        CompressionJob {
            id: new_job_id(),
            auth: auth_token,
            target_size_kb: None,
            state: JobState::Processing,
            format: from,
            probe: ProbeCache::new(),
        }
    }

    /// Where the source is stored.
    pub fn input_path(&self) -> (r: String)
        ensures
            r@ == input_path_of(self.id, compressor_name(self.format)),
    {
        input_path(self.id, self.format.name())
    }

    /// Where the result is written.
    pub fn output_path(&self) -> (r: String)
        ensures
            r@ == output_path_of(self.id, compressor_name(self.format)),
    {
        output_path(self.id, self.format.name())
    }

    /// See `ProbeCache::total_frames`.
    pub fn total_frames(&mut self, packets: &str, rate_and_duration: &str) -> (r: Result<u64, ProbeError>)
        ensures
            old(self).probe@.0 is Some ==> r == Ok::<u64, ProbeError>(old(self).probe@.0.unwrap()),
            old(self).probe@.0 is None ==> r == match packet_count_of(packets@) {
                Some(n) => Ok(n),
                None => frames_from_rate_of(rate_and_duration@),
            },
            r is Ok ==> final(self).probe@.0 == Some(r.unwrap()),
            final(self).id == old(self).id && final(self).state == old(self).state,
    {
        self.probe.total_frames(packets, rate_and_duration)
    }

    /// See `ProbeCache::fps`.
    pub fn fps(&mut self, out: &str) -> (r: u32)
        ensures
            old(self).probe@.2 is Some ==> r == old(self).probe@.2.unwrap(),
            old(self).probe@.2 is None ==> r as nat == fps_of(out@),
            final(self).probe@ == (old(self).probe@.0, old(self).probe@.1, Some(r)),
            final(self).id == old(self).id && final(self).state == old(self).state,
    {
        self.probe.fps(out)
    }
}

/// A job of either kind.
pub enum Job {
    Conversion(ConversionJob),
    Compression(CompressionJob),
}

impl Job {
    /// The job's identifier.
    pub open spec fn spec_id(&self) -> u128 {
        match self {
            Job::Conversion(j) => j.id,
            Job::Compression(j) => j.id,
        }
    }

    /// The job's bearer token.
    pub open spec fn spec_auth(&self) -> Seq<char> {
        match self {
            Job::Conversion(j) => j.auth@,
            Job::Compression(j) => j.auth@,
        }
    }

    /// The job's state.
    pub open spec fn spec_state(&self) -> JobState {
        match self {
            Job::Conversion(j) => j.state,
            Job::Compression(j) => j.state,
        }
    }

    /// Where the job's result is written, once that is known.
    pub open spec fn spec_output_path(&self) -> Option<Seq<char>> {
        match self {
            Job::Conversion(j) => match j.to {
                Some(t) => Some(output_path_of(j.id, t@)),
                None => None,
            },
            Job::Compression(j) => Some(output_path_of(j.id, compressor_name(j.format))),
        }
    }

    /// An identical copy.
    pub fn snapshot(&self) -> (r: Job)
        ensures
            r == *self,
    {
        match self {
            Job::Conversion(j) => Job::Conversion(j.snapshot()),
            Job::Compression(j) => Job::Compression(j.snapshot()),
        }
    }

    /// The job's identifier.
    pub fn id(&self) -> (r: u128)
        ensures
            r == self.spec_id(),
    {
        match self {
            Job::Conversion(j) => j.id,
            Job::Compression(j) => j.id,
        }
    }

    /// The job's bearer token.
    pub fn auth(&self) -> (r: &str)
        ensures
            r@ == self.spec_auth(),
    {
        match self {
            Job::Conversion(j) => j.auth.as_str(),
            Job::Compression(j) => j.auth.as_str(),
        }
    }

    /// The job's state.
    pub fn state(&self) -> (r: JobState)
        ensures
            r == self.spec_state(),
    {
        match self {
            Job::Conversion(j) => j.state,
            Job::Compression(j) => j.state,
        }
    }

    /// Whether the job has finished with a result.
    pub fn completed(&self) -> (r: bool)
        ensures
            r == (self.spec_state() == JobState::Completed),
    {
        match self.state() {
            JobState::Completed => true,
            _ => false,
        }
    }

    /// Whether the job has failed.
    pub fn errored(&self) -> (r: bool)
        ensures
            r == (self.spec_state() == JobState::Failed),
    {
        match self.state() {
            JobState::Failed => true,
            _ => false,
        }
    }

    /// Whether the job is still being worked on.
    pub fn processing(&self) -> (r: bool)
        ensures
            r == (self.spec_state() == JobState::Processing),
    {
        match self.state() {
            JobState::Processing => true,
            _ => false,
        }
    }

    /// Where the job's result is written, once that is known.
    pub fn output_path(&self) -> (r: Option<String>)
        ensures
            match self.spec_output_path() {
                Some(p) => r is Some && r.unwrap()@ == p,
                None => r is None,
            },
    {
        match self {
            Job::Conversion(j) => j.output_path(),
            Job::Compression(j) => Some(j.output_path()),
        }
    }
}

} // verus!
