//! The Process Supervisor's reading of encoder output, and the Two-Pass Compression
//! Controller's arguments and frame numbering.
use vstd::prelude::*;
use crate::format::{CompressorFormat, compressor_name};
use crate::ident::{id_text, uuid_text};
use crate::text::{decimal, decimal_string, parse_u64, parse_u64_spec, str_eq, trim, trim_str, views};

verus! {

/// A structured event read from the encoder's output.
pub enum ProgressUpdate {
    /// The encoder has written this many frames.
    Frame(u64),
    /// A diagnostic line from the encoder's error stream.
    Error(String),
}

/// The position of the first `c` in `s`, if any.
pub open spec fn first_index(s: Seq<char>, c: char) -> Option<int> {
    if exists|i: int| 0 <= i < s.len() && s[i] == c {
        Some(choose|i: int| 0 <= i < s.len() && s[i] == c && forall|k: int| 0 <= k < i ==> s[k] != c)
    } else {
        None
    }
}

/// The frame counter that a `key=value` progress line reports, if it is one.
pub open spec fn frame_of_line(line: Seq<char>) -> Option<u64> {
    match first_index(line, '=') {
        Some(i) => if trim(line.subrange(0, i)) == "frame"@ {
            parse_u64_spec(trim(line.subrange(i + 1, line.len() as int)))
        } else {
            None
        },
        None => None,
    }
}

fn find_char(s: &str, c: char) -> (r: Option<usize>)
    ensures
        match r {
            Some(i) => first_index(s@, c) == Some(i as int) && i < s@.len(),
            None => first_index(s@, c) is None,
        },
{
    let n = s.unicode_len();
    let mut i: usize = 0;
    while i < n
        invariant
            n == s@.len(),
            i <= n,
            forall|k: int| 0 <= k < i ==> s@[k] != c,
        decreases n - i,
    {
        if s.get_char(i) == c {
            proof {
                let j = choose|j: int| 0 <= j < s@.len() && s@[j] == c && forall|k: int| 0 <= k < j ==> s@[k] != c;
                if j < i {
                } else if j > i {
                    assert(s@[i as int] == c);
                }
            }
            return Some(i);
        }
        i = i + 1;
    }
    None
}

/// Reads a line of the encoder's progress stream: the frame counter, if the line reports it.
pub fn parse_progress_line(line: &str) -> (r: Option<u64>)
    ensures
        r == frame_of_line(line@),
{
    match find_char(line, '=') {
        None => None,
        Some(i) => {
            let n = line.unicode_len();
            let key = trim_str(line.substring_char(0, i));
            if !str_eq(key, "frame") {
                return None;
            }
            parse_u64(trim_str(line.substring_char(i + 1, n)))
        },
    }
}

/// The update that a line of the progress stream gives, if any.
pub fn progress_update(line: &str) -> (r: Option<ProgressUpdate>)
    ensures
        match r {
            Some(ProgressUpdate::Frame(n)) => frame_of_line(line@) == Some(n),
            Some(ProgressUpdate::Error(_)) => false,
            None => frame_of_line(line@) is None,
        },
{
    match parse_progress_line(line) {
        Some(n) => Some(ProgressUpdate::Frame(n)),
        None => None,
    }
}

/// The update that a line of the error stream gives: the line itself as a diagnostic.
pub fn diagnostic_update(line: String) -> (r: ProgressUpdate)
    ensures
        r matches ProgressUpdate::Error(m) && m@ == line@,
{
    ProgressUpdate::Error(line)
}

/// The audio budget that a compression keeps back from the requested size, in kilobits.
pub const AUDIO_BUDGET_KB: u64 = 128;

/// The video budget left of a requested total once the audio budget is reserved; `None`
/// where the total does not cover the audio budget.
pub fn video_budget_kb(total_kb: u64) -> (r: Option<u64>)
    ensures
        total_kb >= AUDIO_BUDGET_KB ==> r == Some((total_kb - AUDIO_BUDGET_KB) as u64),
        total_kb < AUDIO_BUDGET_KB ==> r is None,
{
    if total_kb >= AUDIO_BUDGET_KB {
        Some(total_kb - AUDIO_BUDGET_KB)
    } else {
        None
    }
}

/// The arguments of the analysis pass: video only, output discarded into `null_sink`, a
/// pass log written beside the output.
pub open spec fn first_pass_args(id: u128, format: CompressorFormat, encoder: Seq<char>, video_kb: u64, null_sink: Seq<char>) -> Seq<Seq<char>> {
    seq![
        "-y"@, "-i"@, "./input/"@ + uuid_text(id) + "."@ + compressor_name(format),
        "-c:v"@, encoder, "-b:v"@, decimal(video_kb as nat) + "k"@,
        "-pass"@, "1"@, "-hide_banner"@, "-loglevel"@, "error"@, "-progress"@, "pipe:1"@,
        "-passlogfile"@, "./output/"@ + uuid_text(id),
        "-an"@, "-f"@, "null"@, null_sink,
    ]
}

/// The arguments of the second pass: the same video budget and pass log, fixed audio, and
/// the real output file.
pub open spec fn second_pass_args(id: u128, format: CompressorFormat, encoder: Seq<char>, video_kb: u64) -> Seq<Seq<char>> {
    seq![
        "-y"@, "-i"@, "./input/"@ + uuid_text(id) + "."@ + compressor_name(format),
        "-c:v"@, encoder, "-b:v"@, decimal(video_kb as nat) + "k"@,
        "-pass"@, "2"@, "-hide_banner"@, "-loglevel"@, "error"@, "-progress"@, "pipe:1"@,
        "-passlogfile"@, "./output/"@ + uuid_text(id),
        "-c:a"@, "aac"@, "-b:a"@, "128k"@,
        "./output/"@ + uuid_text(id) + "."@ + compressor_name(format),
    ]
}

fn push_str(v: &mut Vec<String>, s: &str)
    ensures
        views(final(v)@) == views(old(v)@).push(s@),
{
    let ghost before = v@;
    v.push(String::from_str(s));
    assert(views(v@) =~= views(before).push(s@));
}

fn pass_prefix(id: u128, format: CompressorFormat, encoder: &str, video_kb: u64, pass: &str) -> (r: Vec<String>)
    ensures
        views(r@) == seq![
            "-y"@, "-i"@, "./input/"@ + uuid_text(id) + "."@ + compressor_name(format),
            "-c:v"@, encoder@, "-b:v"@, decimal(video_kb as nat) + "k"@,
            "-pass"@, pass@, "-hide_banner"@, "-loglevel"@, "error"@, "-progress"@, "pipe:1"@,
            "-passlogfile"@, "./output/"@ + uuid_text(id),
        ],
{
    let t = id_text(id);
    let input = String::from_str("./input/").concat(t.as_str()).concat(".").concat(format.name());
    let rate = decimal_string(video_kb).concat("k");
    let log = String::from_str("./output/").concat(t.as_str());
    let mut v: Vec<String> = Vec::new();
    push_str(&mut v, "-y");
    push_str(&mut v, "-i");
    push_str(&mut v, input.as_str());
    push_str(&mut v, "-c:v");
    push_str(&mut v, encoder);
    push_str(&mut v, "-b:v");
    push_str(&mut v, rate.as_str());
    push_str(&mut v, "-pass");
    push_str(&mut v, pass);
    push_str(&mut v, "-hide_banner");
    push_str(&mut v, "-loglevel");
    push_str(&mut v, "error");
    push_str(&mut v, "-progress");
    push_str(&mut v, "pipe:1");
    push_str(&mut v, "-passlogfile");
    push_str(&mut v, log.as_str());
    v
}

/// Builds the arguments of the analysis pass.
pub fn first_pass(id: u128, format: CompressorFormat, encoder: &str, video_kb: u64, null_sink: &str) -> (r: Vec<String>)
    ensures
        views(r@) == first_pass_args(id, format, encoder@, video_kb, null_sink@),
{
    let mut v = pass_prefix(id, format, encoder, video_kb, "1");
    push_str(&mut v, "-an");
    push_str(&mut v, "-f");
    push_str(&mut v, "null");
    push_str(&mut v, null_sink);
    assert(views(v@) =~= first_pass_args(id, format, encoder@, video_kb, null_sink@));
    v
}

/// Builds the arguments of the second pass.
pub fn second_pass(id: u128, format: CompressorFormat, encoder: &str, video_kb: u64) -> (r: Vec<String>)
    ensures
        views(r@) == second_pass_args(id, format, encoder@, video_kb),
{
    let mut v = pass_prefix(id, format, encoder, video_kb, "2");
    push_str(&mut v, "-c:a");
    push_str(&mut v, "aac");
    push_str(&mut v, "-b:a");
    push_str(&mut v, "128k");
    let t = id_text(id);
    let out = String::from_str("./output/").concat(t.as_str()).concat(".").concat(format.name());
    push_str(&mut v, out.as_str());
    assert(views(v@) =~= second_pass_args(id, format, encoder@, video_kb));
    v
}

/// The frame number that the session sees for raw frame `n` of the second pass, after a
/// first pass of `first_total` frames.
pub open spec fn offset_frame(n: u64, first_total: u64) -> u64 {
    if n as int + first_total as int <= u64::MAX { (n + first_total) as u64 } else { u64::MAX }
}

/// Which pass a compression is in, and so how its frame numbers are relayed.
pub enum PassState {
    /// First pass: frames relayed as they are.
    First,
    /// Second pass: frames offset by the first pass's total.
    Second { first_total: u64 },
}

/// The update relayed for one read in the given pass: second-pass frame numbers continue
/// from the first pass's total; diagnostics pass unchanged.
pub fn relay(state: &PassState, update: ProgressUpdate) -> (r: ProgressUpdate)
    ensures
        match (update, r) {
            (ProgressUpdate::Frame(n), ProgressUpdate::Frame(m)) => match state {
                PassState::First => m == n,
                PassState::Second { first_total } => m == offset_frame(n, *first_total),
            },
            (ProgressUpdate::Error(a), ProgressUpdate::Error(b)) => a@ == b@,
            _ => false,
        },
{
    match update {
        ProgressUpdate::Frame(n) => match state {
            PassState::First => ProgressUpdate::Frame(n),
            PassState::Second { first_total } => {
                let m = if n <= u64::MAX - *first_total { n + *first_total } else { u64::MAX };
                ProgressUpdate::Frame(m)
            },
        },
        ProgressUpdate::Error(e) => ProgressUpdate::Error(e),
    }
}

/// The frame numbers relayed for a second pass reporting `raw`, after a first pass of
/// `first_total` frames.
pub open spec fn relayed_frames(raw: Seq<u64>, first_total: u64) -> Seq<u64> {
    raw.map_values(|n: u64| offset_frame(n, first_total))
}

/// A second pass that reports frames 1 to F2, after a first pass of F1 frames, is seen by
/// the session as frames F1+1 to F1+F2: strictly increasing and without gaps.
pub proof fn lemma_two_pass_numbering(first_total: u64, second_total: u64)
    requires
        first_total as int + second_total as int <= u64::MAX,
    ensures
        ({
            let seen = relayed_frames(Seq::new(second_total as nat, |i: int| (i + 1) as u64), first_total);
            &&& seen.len() == second_total
            &&& forall|i: int| 0 <= i < seen.len() ==> seen[i] == first_total + i + 1
            &&& forall|i: int, j: int| 0 <= i < j < seen.len() ==> seen[i] < seen[j]
        }),
{
}

/// Relaying keeps a strictly increasing run of second-pass frame numbers strictly
/// increasing, as long as the offset numbers fit.
pub proof fn lemma_relay_keeps_order(raw: Seq<u64>, first_total: u64)
    requires
        forall|i: int, j: int| 0 <= i < j < raw.len() ==> raw[i] < raw[j],
        forall|i: int| 0 <= i < raw.len() ==> raw[i] as int + first_total as int <= u64::MAX,
    ensures
        forall|i: int, j: int| 0 <= i < j < raw.len() ==>
            relayed_frames(raw, first_total)[i] < relayed_frames(raw, first_total)[j],
{
}

} // verus!
