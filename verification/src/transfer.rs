//! Decisions of one transfer attempt: where a single-stream download starts,
//! which responses it accepts, how failures are classified for retrying, and
//! the length checks that guard the assembled file.

use vstd::prelude::*;

use crate::error::{app_error_text, AppError};
use crate::http_error::{kind_text, HttpFailureKind};
use crate::ranged::ChunkRange;
use crate::runtime_config::RuntimeConfig;
use crate::text::{decimal, push_decimal, push_str};

verus! {

/// Download tunables taken from the runtime configuration.
#[derive(Debug, Clone, Copy, PartialEq, Eq)]
pub struct DownloadConfig {
    /// Files larger than this are fetched in ranges.
    pub ranged_threshold: u64,
    /// Number of ranges a ranged download is split into.
    pub ranged_threads: usize,
    /// Retries per request after the first attempt.
    pub max_retries: usize,
    /// Free bytes to keep on the download disk.
    pub min_free_disk: u64,
    /// Files younger than this (seconds) are never evicted.
    pub disk_guard_grace_secs: u64,
    /// Whether an interrupted download resumes with a fresh link.
    pub resume_enabled: bool,
    /// How many fresh links one download may ask for.
    pub url_refresh_budget: u32,
    /// Seconds without progress after which an attempt counts as stalled.
    pub stall_secs: u64,
}

impl DownloadConfig {
    /// The defaults: 5 MiB ranged threshold, 8 ranges, 5 retries, 500 MiB
    /// free disk, 300 s grace, resume on with 2 refreshes, 30 s stall.
    pub open spec fn is_default(self) -> bool {
        &&& self.ranged_threshold == 5 * 1024 * 1024
        &&& self.ranged_threads == 8
        &&& self.max_retries == 5
        &&& self.min_free_disk == 500 * 1024 * 1024
        &&& self.disk_guard_grace_secs == 300
        &&& self.resume_enabled
        &&& self.url_refresh_budget == 2
        &&& self.stall_secs == 30
    }

    /// The tunables of a runtime configuration, field by field.
    pub fn from_runtime_config(rc: &RuntimeConfig) -> (c: Self)
        ensures
            c.ranged_threshold == rc.ranged_threshold,
            c.ranged_threads == rc.ranged_threads,
            c.max_retries == rc.max_retries,
            c.min_free_disk == rc.min_free_disk,
            c.disk_guard_grace_secs == rc.disk_guard_grace_secs,
            c.resume_enabled == rc.resume_enabled,
            c.url_refresh_budget == rc.url_refresh_budget,
            c.stall_secs == rc.stall_secs,
    {
        DownloadConfig {
            ranged_threshold: rc.ranged_threshold,
            ranged_threads: rc.ranged_threads,
            max_retries: rc.max_retries,
            min_free_disk: rc.min_free_disk,
            disk_guard_grace_secs: rc.disk_guard_grace_secs,
            resume_enabled: rc.resume_enabled,
            url_refresh_budget: rc.url_refresh_budget,
            stall_secs: rc.stall_secs,
        }
    }

    /// Whether a file of `content_length` bytes is fetched in ranges.
    pub fn uses_ranges(&self, content_length: u64) -> (r: bool)
        ensures
            r == (content_length > self.ranged_threshold),
    {
        content_length > self.ranged_threshold
    }
}

impl Default for DownloadConfig {
    fn default() -> (c: Self)
        ensures
            c.is_default(),
    {
        DownloadConfig {
            ranged_threshold: 5 * 1024 * 1024,
            ranged_threads: 8,
            max_retries: 5,
            min_free_disk: 500 * 1024 * 1024,
            disk_guard_grace_secs: 300,
            resume_enabled: true,
            url_refresh_budget: 2,
            stall_secs: 30,
        }
    }
}

/// Classifies an error raised inside a single-stream attempt for retrying:
/// cancellation and a full disk are permanent (499, 507), a timeout is a
/// timeout, and every other error is a transient network failure carrying
/// the error's text.
pub fn classify(e: &AppError) -> (k: HttpFailureKind)
    ensures
        match *e {
            AppError::Cancelled => k == HttpFailureKind::Permanent4xx { status: 499 },
            AppError::Timeout(_) => k == HttpFailureKind::Timeout,
            AppError::DiskFull(_) => k == HttpFailureKind::Permanent4xx { status: 507 },
            _ => k matches HttpFailureKind::Network(m) && m@ == app_error_text(*e),
        },
{
    match e {
        AppError::Cancelled => HttpFailureKind::Permanent4xx { status: 499 },
        AppError::Timeout(_) => HttpFailureKind::Timeout,
        AppError::DiskFull(_) => HttpFailureKind::Permanent4xx { status: 507 },
        _ => HttpFailureKind::Network(e.message()),
    }
}

/// A local failure (disk, assembly) seen by the job driver: a network
/// failure carrying the error's text, which no fresh link can cure.
pub fn io_fatal(e: &AppError) -> (k: HttpFailureKind)
    ensures
        k matches HttpFailureKind::Network(m) && m@ == app_error_text(*e),
        !k.spec_is_url_refreshable(),
{
    HttpFailureKind::Network(e.message())
}

/// The message of a download failure reported after all retries.
pub fn download_failure(kind: &HttpFailureKind) -> (e: AppError)
    ensures
        e matches AppError::Download(m) && m@ == kind_text(*kind),
{
    AppError::Download(kind.text())
}

/// Where a single-stream attempt starts.
#[derive(Debug, Clone, Copy, PartialEq, Eq)]
pub enum StreamStart {
    /// The `.part` file already has the expected length: nothing to fetch.
    Complete,
    /// Fetch the whole file, truncating the `.part` file.
    Fresh,
    /// Ask for `bytes=<offset>-` and append to the `.part` file.
    Resume { offset: u64 },
}

/// Chooses the start of a single-stream attempt from the expected length
/// (0 when unknown) and the bytes already in the `.part` file. Resuming is
/// only possible when the length is known.
pub fn single_stream_start(content_length: u64, part_len: u64) -> (r: StreamStart)
    ensures
        content_length > 0 && part_len >= content_length ==> r == StreamStart::Complete,
        content_length > 0 && 0 < part_len < content_length ==> r == (StreamStart::Resume {
            offset: part_len,
        }),
        content_length == 0 || part_len == 0 ==> r == StreamStart::Fresh,
{
    if content_length > 0 && part_len >= content_length {
        StreamStart::Complete
    } else if content_length > 0 && part_len > 0 {
        StreamStart::Resume { offset: part_len }
    } else {
        StreamStart::Fresh
    }
}

/// Accepts a single-stream response by its status: any 2xx (206 among
/// them); anything else fails with `HTTP <status> from server`.
pub fn stream_status_check(status: u16) -> (r: Result<(), AppError>)
    ensures
        200 <= status <= 299 <==> r is Ok,
        !(200 <= status <= 299) ==> (r matches Err(AppError::Download(m)) && m@ == "HTTP "@
            + decimal(status as nat) + " from server"@),
{
    if (200 <= status && status <= 299) || status == 206 {
        Ok(())
    } else {
        let mut m = String::new();
        push_str(&mut m, "HTTP ");
        push_decimal(&mut m, status as u64);
        push_str(&mut m, " from server");
        Err(AppError::Download(m))
    }
}

/// The offset a response is written from: the resume offset when a resume
/// was asked for and the server answered 206, else 0 (a server that ignores
/// the range sends the whole file, which then replaces the `.part` file).
pub fn effective_offset(start: StreamStart, status: u16) -> (r: u64)
    ensures
        r == match start {
            StreamStart::Resume { offset } => if status == 206 {
                offset
            } else {
                0
            },
            _ => 0,
        },
{
    match start {
        StreamStart::Resume { offset } => if status == 206 {
            offset
        } else {
            0
        },
        _ => 0,
    }
}

/// The expected length of the whole file: the caller's length when known,
/// else the response's `content-length` header, else 0 (unknown).
pub fn stream_total(content_length: u64, header_len: Option<u64>) -> (r: u64)
    ensures
        content_length > 0 ==> r == content_length,
        content_length == 0 ==> r == match header_len {
            Some(n) => n,
            None => 0,
        },
{
    if content_length > 0 {
        content_length
    } else {
        match header_len {
            Some(n) => n,
            None => 0,
        }
    }
}

/// Whether a progress report is sent: only when the total is known.
pub fn reports_progress(total: u64) -> (r: bool)
    ensures
        r == (total > 0),
{
    total > 0
}

/// After a stream ends, the whole file (resumed prefix included) must have
/// the expected length when that length is known.
pub fn short_read_check(total: u64, downloaded: u64, label: &str) -> (r: Result<(), AppError>)
    ensures
        (total == 0 || downloaded == total) <==> r is Ok,
        !(total == 0 || downloaded == total) ==> (r matches Err(AppError::Download(m)) && m@
            == "Stream short read"@ + label@ + ": got "@ + decimal(downloaded as nat) + " of "@
            + decimal(total as nat) + " bytes"@),
{
    if total > 0 && downloaded != total {
        let mut m = String::new();
        push_str(&mut m, "Stream short read");
        push_str(&mut m, label);
        push_str(&mut m, ": got ");
        push_decimal(&mut m, downloaded);
        push_str(&mut m, " of ");
        push_decimal(&mut m, total);
        push_str(&mut m, " bytes");
        Err(AppError::Download(m))
    } else {
        Ok(())
    }
}

/// After assembly the `.part` file must have exactly the expected length.
pub fn assembled_size_check(written: u64, content_length: u64, shown_path: &str) -> (r: Result<
    (),
    AppError,
>)
    ensures
        (written == content_length) <==> r is Ok,
        written != content_length ==> (r matches Err(AppError::Download(m)) && m@
            == "Assembled file size mismatch: wrote "@ + decimal(written as nat)
            + " bytes, expected "@ + decimal(content_length as nat) + " ("@ + shown_path@ + ")"@),
{
    if written != content_length {
        let mut m = String::new();
        push_str(&mut m, "Assembled file size mismatch: wrote ");
        push_decimal(&mut m, written);
        push_str(&mut m, " bytes, expected ");
        push_decimal(&mut m, content_length);
        push_str(&mut m, " (");
        push_str(&mut m, shown_path);
        push_str(&mut m, ")");
        Err(AppError::Download(m))
    } else {
        Ok(())
    }
}

/// Text `[<start>..<end>]` of a chunk.
pub open spec fn chunk_text(c: ChunkRange) -> Seq<char> {
    seq!['['] + decimal(c.start as nat) + seq!['.', '.'] + decimal(c.end as nat) + seq![']']
}

fn push_chunk(out: &mut String, c: ChunkRange)
    ensures
        final(out)@ == old(out)@ + chunk_text(c),
{
    let ghost o = out@;
    out.push('[');
    push_decimal(out, c.start);
    out.push('.');
    out.push('.');
    push_decimal(out, c.end);
    out.push(']');
    proof {
        assert(out@ =~= o + chunk_text(c));
    }
}

/// The probe's chunk must have arrived whole before it is written.
pub fn first_chunk_check(chunk: ChunkRange, got: u64) -> (r: Result<(), AppError>)
    requires
        chunk.start <= chunk.end,
        chunk.end - chunk.start < u64::MAX,
    ensures
        (got == chunk.end - chunk.start + 1) <==> r is Ok,
        got != chunk.end - chunk.start + 1 ==> (r matches Err(AppError::Download(m)) && m@
            == "First chunk short read: expected "@ + decimal((chunk.end - chunk.start + 1) as nat)
            + " bytes "@ + chunk_text(chunk) + ", got "@ + decimal(got as nat)),
{
    let expected = chunk.len();
    if got != expected {
        let mut m = String::new();
        push_str(&mut m, "First chunk short read: expected ");
        push_decimal(&mut m, expected);
        push_str(&mut m, " bytes ");
        push_chunk(&mut m, chunk);
        push_str(&mut m, ", got ");
        push_decimal(&mut m, got);
        Err(AppError::Download(m))
    } else {
        Ok(())
    }
}

/// A chunk fetch that returned the wrong number of bytes: a transient
/// failure, retried like a network error.
pub fn chunk_short_read(chunk: ChunkRange, got: u64) -> (k: HttpFailureKind)
    requires
        chunk.start <= chunk.end,
        chunk.end - chunk.start < u64::MAX,
    ensures
        k matches HttpFailureKind::Network(m) && m@ == "short read "@ + chunk_text(chunk)
            + ": expected "@ + decimal((chunk.end - chunk.start + 1) as nat) + " got "@ + decimal(
            got as nat,
        ),
        k.spec_is_retryable(),
{
    let mut m = String::new();
    push_str(&mut m, "short read ");
    push_chunk(&mut m, chunk);
    push_str(&mut m, ": expected ");
    push_decimal(&mut m, chunk.len());
    push_str(&mut m, " got ");
    push_decimal(&mut m, got);
    HttpFailureKind::Network(m)
}

/// A chunk whose retries are exhausted fails the ranged download.
pub fn chunk_failed(chunk: ChunkRange, kind: &HttpFailureKind) -> (e: AppError)
    ensures
        e matches AppError::Download(m) && m@ == "Range chunk "@ + chunk_text(chunk)
            + " failed: "@ + kind_text(*kind),
{
    let mut m = String::new();
    push_str(&mut m, "Range chunk ");
    push_chunk(&mut m, chunk);
    push_str(&mut m, " failed: ");
    kind.push_text(&mut m);
    AppError::Download(m)
}

/// What to do with a file already at the destination.
#[derive(Debug, Clone, Copy, PartialEq, Eq)]
pub enum CachedFile {
    /// It has exactly the expected size: use it without downloading.
    Reuse,
    /// It has another size: remove it, then download.
    Discard,
    /// There is none (or it is empty): download.
    Absent,
}

/// Judges an existing destination file by its size (0 when absent) against
/// the expected size: only an exact, non-zero match is reused.
pub fn cached_file(cached_size: u64, expected: u64) -> (r: CachedFile)
    ensures
        cached_size > 0 && expected > 0 && cached_size == expected ==> r == CachedFile::Reuse,
        cached_size > 0 && cached_size != expected ==> r == CachedFile::Discard,
        cached_size == 0 ==> r == CachedFile::Absent,
{
    if cached_size > 0 && expected > 0 && cached_size == expected {
        CachedFile::Reuse
    } else if cached_size > 0 && cached_size != expected {
        CachedFile::Discard
    } else {
        CachedFile::Absent
    }
}

} // verus!
