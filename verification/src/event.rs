//! Structured log event names: one enum variant per event kind, each with a
//! stable snake_case wire name for greppable log lines.

use vstd::prelude::*;

verus! {

/// Canonical structured log event kinds.
#[derive(Debug, Clone, Copy, PartialEq, Eq, Hash)]
pub enum LogEvent {
    // Download lifecycle
    DownloadStarted,
    DownloadCompleted,
    DownloadFailed,
    DownloadCancelled,
    DownloadTimeout,
    DownloadStalled,
    DownloadRetry,
    DownloadCacheHit,
    DownloadPartFileResumed,
    // Range engine internals
    RangeProbeResult,
    RangeChunkRetry,
    RangeChunkExhausted,
    RangeShortRead,
    // Task lifecycle
    TaskCreated,
    TaskTransitioned,
    TaskExpired,
    // API / network
    ApiRetry,
    ApiFailedTerminal,
    UrlRefreshed,
    // Concurrency / capacity
    SemaphoreTimeout,
    // Admin security (audit log)
    AdminLoginAttempt,
    AdminLoginSucceeded,
    AdminLoginFailed,
    AdminSetupCompleted,
    AdminConfigChanged,
    AdminTokenRejected,
    // Cookie
    CookieSet,
    CookieValidationFailed,
    // Disk
    DiskCacheEvicted,
    DiskFullAfterEviction,
}

/// Lower-case ASCII letters and underscores only.
pub open spec fn is_snake_case(s: Seq<char>) -> bool {
    &&& s.len() > 0
    &&& forall|i: int| 0 <= i < s.len() ==> ('a' <= #[trigger] s[i] <= 'z' || s[i] == '_')
}

/// Administrative (audit) events.
pub open spec fn is_admin(e: LogEvent) -> bool {
        e == LogEvent::AdminLoginAttempt
        || e == LogEvent::AdminLoginSucceeded
        || e == LogEvent::AdminLoginFailed
        || e == LogEvent::AdminSetupCompleted
        || e == LogEvent::AdminConfigChanged
        || e == LogEvent::AdminTokenRejected
}

impl LogEvent {
    /// The wire name of the event.
    pub open spec fn wire(self) -> Seq<char> {
        match self {
            LogEvent::DownloadStarted => "download_started"@,
            LogEvent::DownloadCompleted => "download_completed"@,
            LogEvent::DownloadFailed => "download_failed"@,
            LogEvent::DownloadCancelled => "download_cancelled"@,
            LogEvent::DownloadTimeout => "download_timeout"@,
            LogEvent::DownloadStalled => "download_stalled"@,
            LogEvent::DownloadRetry => "download_retry"@,
            LogEvent::DownloadCacheHit => "download_cache_hit"@,
            LogEvent::DownloadPartFileResumed => "download_part_file_resumed"@,
            LogEvent::RangeProbeResult => "range_probe_result"@,
            LogEvent::RangeChunkRetry => "range_chunk_retry"@,
            LogEvent::RangeChunkExhausted => "range_chunk_exhausted"@,
            LogEvent::RangeShortRead => "range_short_read"@,
            LogEvent::TaskCreated => "task_created"@,
            LogEvent::TaskTransitioned => "task_transitioned"@,
            LogEvent::TaskExpired => "task_expired"@,
            LogEvent::ApiRetry => "api_retry"@,
            LogEvent::ApiFailedTerminal => "api_failed_terminal"@,
            LogEvent::UrlRefreshed => "url_refreshed"@,
            LogEvent::SemaphoreTimeout => "semaphore_timeout"@,
            LogEvent::AdminLoginAttempt => "admin_login_attempt"@,
            LogEvent::AdminLoginSucceeded => "admin_login_succeeded"@,
            LogEvent::AdminLoginFailed => "admin_login_failed"@,
            LogEvent::AdminSetupCompleted => "admin_setup_completed"@,
            LogEvent::AdminConfigChanged => "admin_config_changed"@,
            LogEvent::AdminTokenRejected => "admin_token_rejected"@,
            LogEvent::CookieSet => "cookie_set"@,
            LogEvent::CookieValidationFailed => "cookie_validation_failed"@,
            LogEvent::DiskCacheEvicted => "disk_cache_evicted"@,
            LogEvent::DiskFullAfterEviction => "disk_full_after_eviction"@,
        }
    }

    /// The snake_case wire name, for log field interpolation.
    pub fn as_str(self) -> (r: &'static str)
        ensures
            r@ == self.wire(),
    {
        match self {
            LogEvent::DownloadStarted => "download_started",
            LogEvent::DownloadCompleted => "download_completed",
            LogEvent::DownloadFailed => "download_failed",
            LogEvent::DownloadCancelled => "download_cancelled",
            LogEvent::DownloadTimeout => "download_timeout",
            LogEvent::DownloadStalled => "download_stalled",
            LogEvent::DownloadRetry => "download_retry",
            LogEvent::DownloadCacheHit => "download_cache_hit",
            LogEvent::DownloadPartFileResumed => "download_part_file_resumed",
            LogEvent::RangeProbeResult => "range_probe_result",
            LogEvent::RangeChunkRetry => "range_chunk_retry",
            LogEvent::RangeChunkExhausted => "range_chunk_exhausted",
            LogEvent::RangeShortRead => "range_short_read",
            LogEvent::TaskCreated => "task_created",
            LogEvent::TaskTransitioned => "task_transitioned",
            LogEvent::TaskExpired => "task_expired",
            LogEvent::ApiRetry => "api_retry",
            LogEvent::ApiFailedTerminal => "api_failed_terminal",
            LogEvent::UrlRefreshed => "url_refreshed",
            LogEvent::SemaphoreTimeout => "semaphore_timeout",
            LogEvent::AdminLoginAttempt => "admin_login_attempt",
            LogEvent::AdminLoginSucceeded => "admin_login_succeeded",
            LogEvent::AdminLoginFailed => "admin_login_failed",
            LogEvent::AdminSetupCompleted => "admin_setup_completed",
            LogEvent::AdminConfigChanged => "admin_config_changed",
            LogEvent::AdminTokenRejected => "admin_token_rejected",
            LogEvent::CookieSet => "cookie_set",
            LogEvent::CookieValidationFailed => "cookie_validation_failed",
            LogEvent::DiskCacheEvicted => "disk_cache_evicted",
            LogEvent::DiskFullAfterEviction => "disk_full_after_eviction",
        }
    }
}

/// Every administrative event's wire name starts with `admin_`, so audit
/// lines can be selected by prefix.
pub proof fn lemma_admin_events_prefixed(e: LogEvent)
    requires
        is_admin(e),
    ensures
        e.wire().len() >= 6,
        e.wire().subrange(0, 6) == "admin_"@,
{
        reveal_strlit("admin_");
        reveal_strlit("admin_login_attempt");
        reveal_strlit("admin_login_succeeded");
        reveal_strlit("admin_login_failed");
        reveal_strlit("admin_setup_completed");
        reveal_strlit("admin_config_changed");
        reveal_strlit("admin_token_rejected");
    assert(e.wire().subrange(0, 6) =~= "admin_"@);
}

/// Every wire name is snake_case.
pub proof fn lemma_wire_snake_case(e: LogEvent)
    ensures
        is_snake_case(e.wire()),
{
        reveal_strlit("download_started");
        reveal_strlit("download_completed");
        reveal_strlit("download_failed");
        reveal_strlit("download_cancelled");
        reveal_strlit("download_timeout");
        reveal_strlit("download_stalled");
        reveal_strlit("download_retry");
        reveal_strlit("download_cache_hit");
        reveal_strlit("download_part_file_resumed");
        reveal_strlit("range_probe_result");
        reveal_strlit("range_chunk_retry");
        reveal_strlit("range_chunk_exhausted");
        reveal_strlit("range_short_read");
        reveal_strlit("task_created");
        reveal_strlit("task_transitioned");
        reveal_strlit("task_expired");
        reveal_strlit("api_retry");
        reveal_strlit("api_failed_terminal");
        reveal_strlit("url_refreshed");
        reveal_strlit("semaphore_timeout");
        reveal_strlit("admin_login_attempt");
        reveal_strlit("admin_login_succeeded");
        reveal_strlit("admin_login_failed");
        reveal_strlit("admin_setup_completed");
        reveal_strlit("admin_config_changed");
        reveal_strlit("admin_token_rejected");
        reveal_strlit("cookie_set");
        reveal_strlit("cookie_validation_failed");
        reveal_strlit("disk_cache_evicted");
        reveal_strlit("disk_full_after_eviction");
}

} // verus!
