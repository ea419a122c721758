//! The File Lifecycle Manager's download side: who may fetch a result, what fetching does
//! to the registry, and when a streamed file may be deleted.
use vstd::prelude::*;
use crate::ident::{parse_id, parsed_id, uuid_text};
use crate::job::Job;
use crate::registry::Registry;
use crate::text::{split, split_str, str_eq, views};

verus! {

/// How long, in seconds, a fully sent file stays on disk so that a slow client can retry.
pub const DOWNLOAD_GRACE_SECS: u64 = 30;
/// How long, in seconds, a finished job and its output are kept for download.
pub const OUTPUT_RETENTION_SECS: u64 = 3600;
/// The configured value of the privileged token that counts as unset.
pub const DEFAULT_ADMIN_TOKEN: &'static str = "supersecret";

/// Why a download was refused.
pub enum DownloadError {
    JobNotFound,
    IncompleteHandshake,
    InvalidToken,
    FilesystemError(String),
}

impl DownloadError {
    /// The HTTP status that answers this error.
    pub fn status_code(&self) -> (r: u16)
        ensures
            r == match self {
                DownloadError::JobNotFound => 404u16,
                DownloadError::IncompleteHandshake => 400u16,
                DownloadError::InvalidToken => 401u16,
                DownloadError::FilesystemError(_) => 500u16,
            },
    {
        match self {
            DownloadError::JobNotFound => 404,
            DownloadError::IncompleteHandshake => 400,
            DownloadError::InvalidToken => 401,
            DownloadError::FilesystemError(_) => 500,
        }
    }

    /// The text shown to the client.
    pub fn message(&self) -> (r: String)
        ensures
            r@ == match self {
                DownloadError::JobNotFound => "job not found"@,
                DownloadError::IncompleteHandshake => "incomplete websocket handshake"@,
                DownloadError::InvalidToken => "invalid token"@,
                DownloadError::FilesystemError(e) => "filesystem error: "@ + e@,
            },
    {
        match self {
            DownloadError::JobNotFound => String::from_str("job not found"),
            DownloadError::IncompleteHandshake => String::from_str("incomplete websocket handshake"),
            DownloadError::InvalidToken => String::from_str("invalid token"),
            DownloadError::FilesystemError(e) => String::from_str("filesystem error: ").concat(e.as_str()),
        }
    }
}

/// Whether `token` is the privileged token: one is configured, it is neither empty nor the
/// default value, and `token` equals it.
pub open spec fn is_admin(admin: Option<Seq<char>>, token: Seq<char>) -> bool {
    match admin {
        Some(p) => p == token && p.len() > 0 && p != DEFAULT_ADMIN_TOKEN@,
        None => false,
    }
}

/// What a download request of `id` with `token` gives: the file to stream, or the error;
/// and the registry afterwards. A privileged request reads `permanent/<id>` where the part
/// of `id` before its first dot is an identifier; any other request must name a registered
/// job by identifier and carry its token, and consumes the job.
pub open spec fn download_outcome(
    jobs: Map<u128, Job>,
    id: Seq<char>,
    token: Seq<char>,
    admin: Option<Seq<char>>,
) -> (Result<Seq<char>, DownloadError>, Map<u128, Job>) {
    if is_admin(admin, token) {
        if parsed_id(split(id, '.')[0]) is Some {
            (Ok("permanent/"@ + id), jobs)
        } else {
            (Err(DownloadError::JobNotFound), jobs)
        }
    } else {
        match parsed_id(id) {
            None => (Err(DownloadError::JobNotFound), jobs),
            Some(k) => if !jobs.contains_key(k) {
                (Err(DownloadError::JobNotFound), jobs)
            } else if jobs[k].spec_auth() != token {
                (Err(DownloadError::InvalidToken), jobs)
            } else {
                match jobs[k].spec_output_path() {
                    None => (Err(DownloadError::IncompleteHandshake), jobs),
                    Some(p) => (Ok(p), jobs.remove(k)),
                }
            },
        }
    }
}

fn admin_check(admin: &Option<String>, token: &str) -> (r: bool)
    ensures
        r == is_admin(match admin { Some(p) => Some(p@), None => None }, token@),
{
    match admin {
        Some(p) => str_eq(p.as_str(), token) && p.as_str().unicode_len() > 0
            && !str_eq(p.as_str(), DEFAULT_ADMIN_TOKEN),
        None => false,
    }
}

/// Decides a download request and, for a job's result, removes the job from the registry.
/// Returns the path of the file to stream.
pub fn authorize_download(registry: &mut Registry, id: &str, token: &str, admin: &Option<String>) -> (r: Result<String, DownloadError>)
    requires
        old(registry).wf(),
    ensures
        final(registry).wf(),
        ({
            let (res, after) = download_outcome(old(registry)@, id@, token@, match admin { Some(p) => Some(p@), None => None });
            &&& final(registry)@ == after
            &&& match (r, res) {
                (Ok(p), Ok(q)) => p@ == q,
                (Err(DownloadError::JobNotFound), Err(DownloadError::JobNotFound)) => true,
                (Err(DownloadError::InvalidToken), Err(DownloadError::InvalidToken)) => true,
                (Err(DownloadError::IncompleteHandshake), Err(DownloadError::IncompleteHandshake)) => true,
                _ => false,
            }
        }),
        forall|k: u128| #![trigger uuid_text(k)]
            id@ == uuid_text(k) && !is_admin(match admin { Some(p) => Some(p@), None => None }, token@)
            ==> parsed_id(id@) == Some(k),
{
    if admin_check(admin, token) {
        let parts = split_str(id, '.');
        proof {
            crate::text::lemma_split_nonempty(id@, '.');
            assert(views(parts@)[0] == parts@[0]@);
        }
        if parse_id(parts[0].as_str()).is_none() {
            return Err(DownloadError::JobNotFound);
        }
        return Ok(String::from_str("permanent/").concat(id));
    }
    let parsed = parse_id(id);
    let k = match parsed {
        Some(k) => k,
        None => {
            return Err(DownloadError::JobNotFound);
        },
    };
    let job = match registry.get(k) {
        Some(j) => j,
        None => {
            return Err(DownloadError::JobNotFound);
        },
    };
    if !str_eq(job.auth(), token) {
        return Err(DownloadError::InvalidToken);
    }
    let path = match job.output_path() {
        Some(p) => p,
        None => {
            return Err(DownloadError::IncompleteHandshake);
        },
    };
    let _ = registry.remove(k);
    Ok(path)
}

/// The bytes sent so far of a streamed file, and whether the file may be deleted when the
/// stream ends.
pub struct Transfer {
    pub file_path: String,
    pub file_size: u64,
    pub sent: u64,
}

/// The byte counter after a chunk of `n` more bytes (it stops at the largest `u64`).
pub open spec fn add_sent(sent: u64, n: u64) -> u64 {
    if sent as int + n as int <= u64::MAX { (sent + n) as u64 } else { u64::MAX }
}

/// The byte counter after a sequence of chunks.
pub open spec fn sent_after(start: u64, chunks: Seq<u64>) -> u64
    decreases chunks.len(),
{
    if chunks.len() == 0 {
        start
    } else {
        add_sent(sent_after(start, chunks.drop_last()), chunks.last())
    }
}

/// The sum of chunk sizes.
pub open spec fn total(chunks: Seq<u64>) -> nat
    decreases chunks.len(),
{
    if chunks.len() == 0 {
        0
    } else {
        total(chunks.drop_last()) + chunks.last() as nat
    }
}

impl Transfer {
    /// A transfer of a file of `file_size` bytes, nothing sent yet.
    pub fn new(file_path: String, file_size: u64) -> (r: Transfer)
        ensures
            r.file_path@ == file_path@,
            r.file_size == file_size,
            r.sent == 0,
    {
        Transfer { file_path, file_size, sent: 0 }
    }

    /// Counts a chunk of `n` bytes as sent.
    pub fn record_chunk(&mut self, n: u64)
        ensures
            final(self).sent == add_sent(old(self).sent, n),
            final(self).file_size == old(self).file_size,
            final(self).file_path == old(self).file_path,
    {
        self.sent = if n <= u64::MAX - self.sent { self.sent + n } else { u64::MAX };
    }

    /// Called when the stream ends, however it ends: the file to delete after the grace
    /// period, which is the file exactly when every byte of it was sent.
    pub fn finish(&self) -> (r: Option<String>)
        ensures
            self.sent == self.file_size ==> r is Some && r.unwrap()@ == self.file_path@,
            self.sent != self.file_size ==> r is None,
    {
        if self.sent == self.file_size {
            Some(self.file_path.clone())
        } else {
            None
        }
    }
}

proof fn lemma_sent_after_total(chunks: Seq<u64>)
    requires
        total(chunks) <= u64::MAX,
    ensures
        sent_after(0, chunks) == total(chunks),
    decreases chunks.len(),
{
    if chunks.len() > 0 {
        assert(total(chunks.drop_last()) <= total(chunks));
        lemma_sent_after_total(chunks.drop_last());
    }
}

/// A download with the job's token consumes the job: the result's path is handed out and
/// the job leaves the registry. Once the stream ends, the file is marked for deletion
/// (after the grace period) exactly when the bytes sent add up to the file's size, so a
/// transfer cut short leaves the file in place.
pub proof fn lemma_download_consumes(
    jobs: Map<u128, Job>,
    id: Seq<char>,
    token: Seq<char>,
    admin: Option<Seq<char>>,
    k: u128,
    file_size: u64,
    chunks: Seq<u64>,
)
    requires
        !is_admin(admin, token),
        parsed_id(id) == Some(k),
        jobs.contains_key(k),
        jobs[k].spec_auth() == token,
        jobs[k].spec_output_path() is Some,
        total(chunks) <= u64::MAX,
    ensures
        download_outcome(jobs, id, token, admin)
            == (Ok::<Seq<char>, DownloadError>(jobs[k].spec_output_path().unwrap()), jobs.remove(k)),
        !download_outcome(jobs, id, token, admin).1.contains_key(k),
        (sent_after(0, chunks) == file_size) <==> (total(chunks) == file_size),
{
    lemma_sent_after_total(chunks);
}

/// A download request that names a job by the identifier text that the service prints for
/// it, with the job's token, finds that job, hands out its result and removes it; given
/// what `authorize_download` guarantees of such texts.
pub proof fn lemma_download_by_printed_id(
    jobs: Map<u128, Job>,
    token: Seq<char>,
    admin: Option<Seq<char>>,
    k: u128,
)
    requires
        !is_admin(admin, token),
        parsed_id(uuid_text(k)) == Some(k),
        jobs.contains_key(k),
        jobs[k].spec_auth() == token,
        jobs[k].spec_output_path() is Some,
    ensures
        download_outcome(jobs, uuid_text(k), token, admin)
            == (Ok::<Seq<char>, DownloadError>(jobs[k].spec_output_path().unwrap()), jobs.remove(k)),
{
}

} // verus!
