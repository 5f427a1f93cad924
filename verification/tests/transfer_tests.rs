use std::time::Duration;

use netease_music_api::error::AppError;
use netease_music_api::http_error::{response_failure, status_text, HttpFailureKind};
use netease_music_api::ranged::ChunkRange;
use netease_music_api::runtime_config::RuntimeConfig;
use netease_music_api::transfer::{
    assembled_size_check, cached_file, chunk_failed, chunk_short_read, classify, download_failure,
    effective_offset, first_chunk_check, io_fatal, reports_progress, short_read_check,
    single_stream_start, stream_status_check, stream_total, CachedFile, DownloadConfig,
    StreamStart,
};

fn download_message(r: Result<(), AppError>) -> String {
    match r {
        Err(AppError::Download(m)) => m,
        other => panic!("expected a download error, got {other:?}"),
    }
}

#[test]
fn download_config_defaults() {
    let c = DownloadConfig::default();
    assert_eq!(c.ranged_threshold, 5 * 1024 * 1024);
    assert_eq!(c.ranged_threads, 8);
    assert_eq!(c.max_retries, 5);
    assert_eq!(c.min_free_disk, 500 * 1024 * 1024);
    assert_eq!(c.disk_guard_grace_secs, 300);
    assert!(c.resume_enabled);
    assert_eq!(c.url_refresh_budget, 2);
    assert_eq!(c.stall_secs, 30);
}

#[test]
fn download_config_follows_runtime_config() {
    let mut rc = RuntimeConfig::default();
    rc.ranged_threads = 3;
    rc.max_retries = 7;
    rc.url_refresh_budget = 4;
    let c = DownloadConfig::from_runtime_config(&rc);
    assert_eq!(c.ranged_threads, 3);
    assert_eq!(c.max_retries, 7);
    assert_eq!(c.url_refresh_budget, 4);
    assert_eq!(c.ranged_threshold, rc.ranged_threshold);
    assert!(c.uses_ranges(rc.ranged_threshold + 1));
    assert!(!c.uses_ranges(rc.ranged_threshold));
}

#[test]
fn single_stream_start_cases() {
    assert_eq!(single_stream_start(1000, 0), StreamStart::Fresh);
    assert_eq!(single_stream_start(1000, 333), StreamStart::Resume { offset: 333 });
    assert_eq!(single_stream_start(1000, 1000), StreamStart::Complete);
    assert_eq!(single_stream_start(1000, 1500), StreamStart::Complete);
    // unknown length: no resume, always a fresh download
    assert_eq!(single_stream_start(0, 333), StreamStart::Fresh);
}

#[test]
fn stream_status_accepts_2xx_only() {
    assert!(stream_status_check(200).is_ok());
    assert!(stream_status_check(206).is_ok());
    assert_eq!(download_message(stream_status_check(404)), "HTTP 404 from server");
    assert_eq!(download_message(stream_status_check(503)), "HTTP 503 from server");
}

#[test]
fn resume_offset_needs_206() {
    let resume = StreamStart::Resume { offset: 500 };
    assert_eq!(effective_offset(resume, 206), 500);
    // a server that ignores the range sends the whole file again
    assert_eq!(effective_offset(resume, 200), 0);
    assert_eq!(effective_offset(StreamStart::Fresh, 206), 0);
}

#[test]
fn stream_total_prefers_known_length() {
    assert_eq!(stream_total(1000, Some(400)), 1000);
    assert_eq!(stream_total(0, Some(400)), 400);
    assert_eq!(stream_total(0, None), 0);
    assert!(reports_progress(1));
    assert!(!reports_progress(0));
}

#[test]
fn short_read_is_an_error_only_for_known_lengths() {
    assert!(short_read_check(1000, 1000, "").is_ok());
    assert!(short_read_check(0, 12, "").is_ok());
    assert_eq!(
        download_message(short_read_check(1000, 900, "")),
        "Stream short read: got 900 of 1000 bytes"
    );
    assert_eq!(
        download_message(short_read_check(1000, 900, " (probe-response path)")),
        "Stream short read (probe-response path): got 900 of 1000 bytes"
    );
}

#[test]
fn assembled_size_mismatch_message() {
    assert!(assembled_size_check(10, 10, "a.part").is_ok());
    assert_eq!(
        download_message(assembled_size_check(9, 10, "/tmp/a.part")),
        "Assembled file size mismatch: wrote 9 bytes, expected 10 (/tmp/a.part)"
    );
}

#[test]
fn chunk_length_checks() {
    let c = ChunkRange { start: 250, end: 499 };
    assert!(first_chunk_check(c, 250).is_ok());
    assert_eq!(
        download_message(first_chunk_check(c, 10)),
        "First chunk short read: expected 250 bytes [250..499], got 10"
    );
    let k = chunk_short_read(c, 10);
    assert_eq!(k, HttpFailureKind::Network("short read [250..499]: expected 250 got 10".into()));
    assert!(k.is_retryable());
    match chunk_failed(c, &HttpFailureKind::Permanent4xx { status: 403 }) {
        AppError::Download(m) => assert_eq!(m, "Range chunk [250..499] failed: permanent 403"),
        other => panic!("unexpected {other:?}"),
    }
}

#[test]
fn classify_maps_errors_for_retrying() {
    assert_eq!(classify(&AppError::Cancelled), HttpFailureKind::Permanent4xx { status: 499 });
    assert_eq!(classify(&AppError::Timeout("30s".into())), HttpFailureKind::Timeout);
    assert_eq!(classify(&AppError::DiskFull("x".into())), HttpFailureKind::Permanent4xx { status: 507 });
    assert_eq!(
        classify(&AppError::Download("Stream error: reset".into())),
        HttpFailureKind::Network("Download error: Stream error: reset".into())
    );
    let k = io_fatal(&AppError::Download("seek failed".into()));
    assert_eq!(k, HttpFailureKind::Network("Download error: seek failed".into()));
    assert!(!k.is_url_refreshable());
}

#[test]
fn download_failure_carries_kind_text() {
    match download_failure(&HttpFailureKind::Server5xx { status: 502 }) {
        AppError::Download(m) => assert_eq!(m, "server 502"),
        other => panic!("unexpected {other:?}"),
    }
}

#[test]
fn kind_text_matches_display_forms() {
    assert_eq!(HttpFailureKind::Network("reset".into()).text(), "network: reset");
    assert_eq!(HttpFailureKind::Timeout.text(), "timeout");
    assert_eq!(HttpFailureKind::AuthExpired.text(), "auth expired");
    assert_eq!(HttpFailureKind::Permanent4xx { status: 404 }.text(), "permanent 404");
    assert_eq!(HttpFailureKind::Quota { retry_after: None }.text(), "rate limited (retry_after=None)");
    for ms in [0u64, 1, 5, 250, 999, 1000, 1500, 1050, 1005, 2000, 61_234, 3_600_000] {
        let expected = format!("rate limited (retry_after={:?})", Some(Duration::from_millis(ms)));
        assert_eq!(HttpFailureKind::Quota { retry_after: Some(ms) }.text(), expected, "ms={ms}");
    }
}

#[test]
fn status_lines() {
    assert_eq!(status_text(404), "404 Not Found");
    assert_eq!(status_text(200), "200 OK");
    assert_eq!(status_text(599), "599 <unknown status code>");
    assert_eq!(
        response_failure(302, b"", " (range)"),
        HttpFailureKind::Network("HTTP 302 Found (range)".into())
    );
    assert_eq!(response_failure(503, b"", ""), HttpFailureKind::Server5xx { status: 503 });
}

#[test]
fn cached_file_decisions() {
    assert_eq!(cached_file(1000, 1000), CachedFile::Reuse);
    assert_eq!(cached_file(900, 1000), CachedFile::Discard);
    assert_eq!(cached_file(900, 0), CachedFile::Discard);
    assert_eq!(cached_file(0, 1000), CachedFile::Absent);
    assert_eq!(cached_file(0, 0), CachedFile::Absent);
}

#[test]
fn app_error_messages() {
    assert_eq!(AppError::Api("x".into()).message(), "API error: x");
    assert_eq!(AppError::ServiceBusy.message(), "Service busy");
    assert_eq!(AppError::Cancelled.message(), "Cancelled by user");
    assert_eq!(AppError::UrlUnavailable(-12).message(), "Download URL unavailable for song id -12");
    assert_eq!(AppError::InvalidTransition("a".into()).message(), "Invalid task transition: a");
    assert_eq!(AppError::QualityParse("q".into()).message(), "Invalid quality: q");
    assert_eq!(AppError::Internal("boom".into()).message(), "boom");
}
