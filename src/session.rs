//! The Protocol State Machine: what one connected session does with each message and
//! event, from handshake to a finished or failed job. The caller performs the I/O (reading
//! messages, running the encoder, sending replies) and hands the results back.
use vstd::prelude::*;
use crate::format::{ConverterFormat, ConversionSpeed, format_name, preset_name};
use crate::job::{Job, JobState, may_move};
use crate::policy::Conversion;
use crate::progress::{PassState, ProgressUpdate, offset_frame, relay};
use crate::registry::Registry;
use crate::text::str_eq;

verus! {

/// A message from the client, as decoded from the wire.
pub enum ClientMessage {
    /// Binds the session to the job whose bearer token this is.
    Hello { auth: String },
    /// Starts a conversion to the named format at the named speed.
    StartConversion { to: String, speed: String },
    /// Starts a compression to the given total size, in kilobits.
    StartCompression { size_kb: u64 },
    /// Anything else.
    Other,
}

/// A message to the client.
pub enum ServerMessage {
    /// The encoder has written this many frames.
    Progress(u64),
    /// The job has finished and its result can be downloaded.
    JobFinished,
    /// Something went wrong; the text is meant for the user.
    Error { message: String },
}

/// Where a session stands.
#[derive(Clone, Copy, Debug, PartialEq, Eq, Structural)]
pub enum Phase {
    AwaitingHandshake,
    AwaitingParameters,
    Running,
    Finished,
    Failed,
    /// The session ended without running a job.
    Closed,
}

/// What the caller must run once a start message is accepted.
pub enum Launch {
    /// Run the conversion with these formats and speed.
    Conversion { conversion: Conversion, speed: ConversionSpeed },
    /// Run both compression passes with this video budget, in kilobits.
    Compression { video_kb: u64 },
}

/// What a failed job reports to the operators.
pub struct FailureReport {
    pub job_id: u128,
    pub from: String,
    pub to: String,
    pub logs: String,
}

/// What the caller must do once the encoder is done: send the reply, delete the input,
/// schedule the output's removal after the retention window, and pass on the report if any.
pub struct Completion {
    pub reply: ServerMessage,
    pub report: Option<FailureReport>,
    pub output_path: String,
}

/// The text a session gets when its token matches no job.
pub open spec fn invalid_auth_text() -> Seq<char> {
    "invalid auth"@
}

/// The text a session gets when its job has already completed.
pub open spec fn already_completed_text() -> Seq<char> {
    "job already completed"@
}

/// The text a session gets when its job fails; details go to the operators only.
pub open spec fn job_failed_text() -> Seq<char> {
    "your job failed; the operators have been notified"@
}

/// The source and target format names that a failure report gives for a job: a
/// conversion's own names (the target empty if it was never set); a compression's format
/// for both.
pub open spec fn report_formats(job: Job) -> (Seq<char>, Seq<char>) {
    match job {
        Job::Conversion(j) => (j.from@, match j.to {
            Some(t) => t@,
            None => Seq::empty(),
        }),
        Job::Compression(j) => (crate::format::compressor_name(j.format), crate::format::compressor_name(j.format)),
    }
}

/// Lines joined with newlines between them.
pub open spec fn join_lines(lines: Seq<Seq<char>>) -> Seq<char>
    decreases lines.len(),
{
    if lines.len() == 0 {
        Seq::empty()
    } else if lines.len() == 1 {
        lines[0]
    } else {
        join_lines(lines.drop_last()) + "\n"@ + lines.last()
    }
}

/// Joins lines with newlines between them.
pub fn join(lines: &Vec<String>) -> (r: String)
    ensures
        r@ == join_lines(crate::text::views(lines@)),
{
    let ghost all = crate::text::views(lines@);
    if lines.len() == 0 {
        return String::new();
    }
    let mut out = lines[0].clone();
    let mut i: usize = 1;
    assert(all.subrange(0, 1) =~= seq![all[0]]);
    while i < lines.len()
        invariant
            1 <= i <= lines@.len(),
            all == crate::text::views(lines@),
            out@ == join_lines(all.subrange(0, i as int)),
        decreases lines.len() - i,
    {
        out.append("\n");
        out.append(lines[i].as_str());
        assert(all.subrange(0, i as int + 1).drop_last() =~= all.subrange(0, i as int));
        i = i + 1;
    }
    assert(all.subrange(0, lines@.len() as int) =~= all);
    out
}

fn error_message(text: &str) -> (r: ServerMessage)
    ensures
        r matches ServerMessage::Error { message } && message@ == text@,
{
    ServerMessage::Error { message: String::from_str(text) }
}

/// The state of one session.
pub struct Session {
    pub phase: Phase,
    /// The bound job, a copy of the registry's, once the handshake has succeeded.
    pub job: Option<Job>,
    /// Diagnostic lines gathered while the encoder runs.
    pub logs: Vec<String>,
    /// How frame numbers are relayed.
    pub pass: PassState,
}

impl Session {
    /// A session waiting for its handshake.
    pub fn new() -> (r: Session)
        ensures
            r.phase == Phase::AwaitingHandshake,
            r.job is None,
            r.logs@.len() == 0,
            r.pass is First,
    {
        Session { phase: Phase::AwaitingHandshake, job: None, logs: Vec::new(), pass: PassState::First }
    }

    /// Handles a message during the handshake. A `Hello` whose token matches a job binds
    /// that job (or, if the job has completed, says so and ends the session); one that
    /// matches nothing is answered with an error and the handshake goes on. Other messages
    /// are ignored.
    pub fn on_handshake(&mut self, registry: &Registry, msg: ClientMessage) -> (r: Option<ServerMessage>)
        requires
            old(self).phase == Phase::AwaitingHandshake,
            registry.wf(),
        ensures
            final(self).logs@ == old(self).logs@,
            match msg {
                ClientMessage::Hello { auth } => {
                    if exists|id: u128| #[trigger] registry@.contains_key(id) && registry@[id].spec_auth() == auth@ {
                        &&& final(self).job is Some
                        &&& registry@.contains_key(final(self).job.unwrap().spec_id())
                        &&& registry@[final(self).job.unwrap().spec_id()] == final(self).job.unwrap()
                        &&& final(self).job.unwrap().spec_auth() == auth@
                        &&& if final(self).job.unwrap().spec_state() == JobState::Completed {
                            &&& final(self).phase == Phase::Closed
                            &&& r matches Some(ServerMessage::Error { message }) && message@ == already_completed_text()
                        } else {
                            &&& final(self).phase == Phase::AwaitingParameters
                            &&& r is None
                        }
                    } else {
                        &&& final(self).phase == Phase::AwaitingHandshake
                        &&& final(self).job == old(self).job
                        &&& r matches Some(ServerMessage::Error { message }) && message@ == invalid_auth_text()
                    }
                },
                _ => final(self).phase == Phase::AwaitingHandshake && final(self).job == old(self).job && r is None,
            },
    {
        match msg {
            ClientMessage::Hello { auth } => match registry.find_by_auth(auth.as_str()) {
                None => Some(error_message("invalid auth")),
                Some(job) => {
                    let done = job.completed();
                    self.job = Some(job);
                    if done {
                        self.phase = Phase::Closed;
                        Some(error_message("job already completed"))
                    } else {
                        self.phase = Phase::AwaitingParameters;
                        None
                    }
                },
            },
            _ => None,
        }
    }

    /// Handles a message while waiting for the start message. A start message of the bound
    /// job's kind with usable parameters records them on the job and says what to run; one
    /// with unusable parameters is answered with an error and ends the session. Anything
    /// else is ignored.
    pub fn on_start(&mut self, msg: ClientMessage) -> (r: Result<Option<Launch>, ServerMessage>)
        requires
            old(self).phase == Phase::AwaitingParameters,
            old(self).job is Some,
        ensures
            final(self).job is Some,
            final(self).job.unwrap().spec_id() == old(self).job.unwrap().spec_id(),
            final(self).job.unwrap().spec_auth() == old(self).job.unwrap().spec_auth(),
            final(self).job.unwrap().spec_state() == old(self).job.unwrap().spec_state(),
            r matches Ok(None) ==> final(self).phase == Phase::AwaitingParameters && final(self).job == old(self).job,
            r matches Ok(Some(_)) ==> final(self).phase == Phase::Running,
            r is Err ==> final(self).phase == Phase::Closed,
            match (old(self).job.unwrap(), msg) {
                (Job::Conversion(j), ClientMessage::StartConversion { to, speed }) => match r {
                    Ok(Some(Launch::Conversion { conversion, speed: s })) => {
                        &&& format_name(conversion.from) == j.from@
                        &&& format_name(conversion.to) == to@
                        &&& preset_name(s) == speed@
                        &&& final(self).job matches Some(Job::Conversion(k)) && k.to is Some && k.to.unwrap()@ == to@
                    },
                    Err(_) => {
                        ||| forall|f: ConverterFormat| format_name(f) != j.from@
                        ||| forall|f: ConverterFormat| format_name(f) != to@
                        ||| forall|v: ConversionSpeed| preset_name(v) != speed@
                        ||| (j.to is Some && j.to.unwrap()@ != to@)
                    },
                    _ => false,
                },
                (Job::Compression(j), ClientMessage::StartCompression { size_kb }) => match r {
                    Ok(Some(Launch::Compression { video_kb })) => {
                        &&& size_kb >= crate::progress::AUDIO_BUDGET_KB
                        &&& video_kb == size_kb - crate::progress::AUDIO_BUDGET_KB
                        &&& final(self).job matches Some(Job::Compression(k)) && k.target_size_kb == Some(video_kb)
                    },
                    Err(_) => size_kb < crate::progress::AUDIO_BUDGET_KB,
                    _ => false,
                },
                _ => r matches Ok(None),
            },
    {
        let job = self.job.take().unwrap();
        match (job, msg) {
            (Job::Conversion(mut j), ClientMessage::StartConversion { to, speed }) => {
                let from_f = ConverterFormat::from_name(j.from.as_str());
                let to_f = ConverterFormat::from_name(to.as_str());
                let speed_v = ConversionSpeed::from_name(speed.as_str());
                let clash = match &j.to {
                    Some(t) => !str_eq(t.as_str(), to.as_str()),
                    None => false,
                };
                match (from_f, to_f, speed_v) {
                    (Some(f), Some(t), Some(s)) => {
                        if clash {
                            self.job = Some(Job::Conversion(j));
                            self.phase = Phase::Closed;
                            return Err(error_message("the target format is already set"));
                        }
                        if j.to.is_none() {
                            j.to = Some(to);
                        }
                        self.job = Some(Job::Conversion(j));
                        self.phase = Phase::Running;
                        Ok(Some(Launch::Conversion { conversion: Conversion::new(f, t), speed: s }))
                    },
                    _ => {
                        self.job = Some(Job::Conversion(j));
                        self.phase = Phase::Closed;
                        Err(error_message("unsupported format or speed"))
                    },
                }
            },
            (Job::Compression(mut j), ClientMessage::StartCompression { size_kb }) => {
                match crate::progress::video_budget_kb(size_kb) {
                    Some(kb) => {
                        j.target_size_kb = Some(kb);
                        self.job = Some(Job::Compression(j));
                        self.phase = Phase::Running;
                        Ok(Some(Launch::Compression { video_kb: kb }))
                    },
                    None => {
                        self.job = Some(Job::Compression(j));
                        self.phase = Phase::Closed;
                        Err(error_message("the requested size does not cover the audio budget"))
                    },
                }
            },
            (job, _) => {
                self.job = Some(job);
                Ok(None)
            },
        }
    }

    /// Switches frame numbering to the second compression pass, after a first pass over a
    /// source of `first_total` frames.
    pub fn begin_second_pass(&mut self, first_total: u64)
        requires
            old(self).phase == Phase::Running,
        ensures
            final(self).pass == (PassState::Second { first_total }),
            final(self).phase == old(self).phase,
            final(self).job == old(self).job,
            final(self).logs@ == old(self).logs@,
    {
        self.pass = PassState::Second { first_total };
    }

    /// Handles an update from the encoder while the job runs: frame counts are relayed to
    /// the client (offset in the second compression pass); diagnostic lines are kept for the
    /// failure report and not shown to the client.
    pub fn on_update(&mut self, update: ProgressUpdate) -> (r: Option<ServerMessage>)
        requires
            old(self).phase == Phase::Running,
        ensures
            final(self).phase == old(self).phase,
            final(self).job == old(self).job,
            final(self).pass == old(self).pass,
            match update {
                ProgressUpdate::Frame(n) => {
                    &&& final(self).logs@ == old(self).logs@
                    &&& r matches Some(ServerMessage::Progress(m)) && m == match old(self).pass {
                        PassState::First => n,
                        PassState::Second { first_total } => offset_frame(n, first_total),
                    }
                },
                ProgressUpdate::Error(line) => {
                    &&& r is None
                    &&& crate::text::views(final(self).logs@) == crate::text::views(old(self).logs@).push(line@)
                },
            },
    {
        match relay(&self.pass, update) {
            ProgressUpdate::Frame(m) => Some(ServerMessage::Progress(m)),
            ProgressUpdate::Error(line) => {
                let ghost before = self.logs@;
                self.logs.push(line);
                assert(crate::text::views(self.logs@) =~= crate::text::views(before).push(line@));
                None
            },
        }
    }

    /// Settles the job once the encoder's output channel has closed, given the size of the
    /// output file (`None` if it is missing). A non-empty output completes the job; anything
    /// else fails it, with a generic message to the client and a report for the operators.
    pub fn finish(&mut self, output_size: Option<u64>) -> (r: Completion)
        requires
            old(self).phase == Phase::Running,
            old(self).job is Some,
            old(self).job.unwrap().spec_output_path() is Some,
        ensures
            final(self).job is Some,
            final(self).job.unwrap().spec_id() == old(self).job.unwrap().spec_id(),
            may_move(old(self).job.unwrap().spec_state(), final(self).job.unwrap().spec_state()),
            r.output_path@ == old(self).job.unwrap().spec_output_path().unwrap(),
            match output_size {
                Some(n) if n > 0 => {
                    &&& final(self).phase == Phase::Finished
                    &&& r.reply is JobFinished
                    &&& r.report is None
                    &&& old(self).job.unwrap().spec_state() == JobState::Processing
                        ==> final(self).job.unwrap().spec_state() == JobState::Completed
                },
                _ => {
                    &&& final(self).phase == Phase::Failed
                    &&& r.reply matches ServerMessage::Error { message } && message@ == job_failed_text()
                    &&& r.report is Some
                    &&& r.report.unwrap().job_id == old(self).job.unwrap().spec_id()
                    &&& r.report.unwrap().logs@ == join_lines(crate::text::views(old(self).logs@))
                    &&& r.report.unwrap().from@ == report_formats(old(self).job.unwrap()).0
                    &&& r.report.unwrap().to@ == report_formats(old(self).job.unwrap()).1
                    &&& old(self).job.unwrap().spec_state() == JobState::Processing
                        ==> final(self).job.unwrap().spec_state() == JobState::Failed
                },
            },
    {
        let ok = match output_size {
            Some(n) => n > 0,
            None => false,
        };
        let mut job = self.job.take().unwrap();
        let path = job.output_path().unwrap();
        let target = if ok { JobState::Completed } else { JobState::Failed };
        match &mut job {
            Job::Conversion(j) => {
                if let JobState::Processing = j.state {
                    j.state = target;
                }
            },
            Job::Compression(j) => {
                if let JobState::Processing = j.state {
                    j.state = target;
                }
            },
        }
        let report = if ok {
            None
        } else {
            let (from, to) = match &job {
                Job::Conversion(j) => (
                    j.from.clone(),
                    match &j.to {
                        Some(t) => t.clone(),
                        None => String::new(),
                    },
                ),
                Job::Compression(j) => (String::from_str(j.format.name()), String::from_str(j.format.name())),
            };
            Some(FailureReport { job_id: job.id(), from, to, logs: join(&self.logs) })
        };
        self.job = Some(job);
        if ok {
            self.phase = Phase::Finished;
            Completion { reply: ServerMessage::JobFinished, report, output_path: path }
        } else {
            self.phase = Phase::Failed;
            Completion { reply: error_message("your job failed; the operators have been notified"), report, output_path: path }
        }
    }
}

} // verus!
