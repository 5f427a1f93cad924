use netease_music_api::error::AppError;
use netease_music_api::event::LogEvent;
use netease_music_api::filename::{format_file_size, sanitize_filename};
use netease_music_api::redact::Redacted;
use netease_music_api::runtime_config::{bounds, Bound, RuntimeConfig};

#[test]
fn pr7_status_codes_distinct() {
    assert_eq!(AppError::Cancelled.status_code(), 499);
    assert_eq!(AppError::Timeout("30s".into()).status_code(), 504);
    assert_eq!(AppError::UrlUnavailable(123).status_code(), 502);
    assert_eq!(AppError::InvalidTransition("Done -> Starting".into()).status_code(), 500);
    assert_eq!(AppError::QualityParse("foo".into()).status_code(), 400);
}

#[test]
fn existing_status_codes_preserved() {
    assert_eq!(AppError::Validation("x".into()).status_code(), 400);
    assert_eq!(AppError::NotFound("x".into()).status_code(), 404);
    assert_eq!(AppError::DiskFull("x".into()).status_code(), 507);
    assert_eq!(AppError::ServiceBusy.status_code(), 503);
}

#[test]
fn other_status_codes() {
    assert_eq!(AppError::Api("x".into()).status_code(), 500);
    assert_eq!(AppError::Download("x".into()).status_code(), 500);
    assert_eq!(AppError::Cookie("x".into()).status_code(), 500);
    assert_eq!(AppError::Internal("x".into()).status_code(), 500);
}

#[test]
fn display_is_snake_case() {
    assert_eq!(LogEvent::DownloadStarted.as_str(), "download_started");
    assert_eq!(LogEvent::AdminLoginFailed.as_str(), "admin_login_failed");
}

#[test]
fn all_admin_events_prefixed() {
    for ev in [
        LogEvent::AdminLoginAttempt,
        LogEvent::AdminLoginSucceeded,
        LogEvent::AdminLoginFailed,
        LogEvent::AdminSetupCompleted,
        LogEvent::AdminConfigChanged,
        LogEvent::AdminTokenRejected,
    ] {
        assert!(ev.as_str().starts_with("admin_"), "admin event must start with admin_: {}", ev.as_str());
    }
}

#[test]
fn event_names_are_snake_case_and_distinct() {
    let all = [
        LogEvent::DownloadStarted, LogEvent::DownloadCompleted, LogEvent::DownloadFailed,
        LogEvent::DownloadCancelled, LogEvent::DownloadTimeout, LogEvent::DownloadStalled,
        LogEvent::DownloadRetry, LogEvent::DownloadCacheHit, LogEvent::DownloadPartFileResumed,
        LogEvent::RangeProbeResult, LogEvent::RangeChunkRetry, LogEvent::RangeChunkExhausted,
        LogEvent::RangeShortRead, LogEvent::TaskCreated, LogEvent::TaskTransitioned,
        LogEvent::TaskExpired, LogEvent::ApiRetry, LogEvent::ApiFailedTerminal,
        LogEvent::UrlRefreshed, LogEvent::SemaphoreTimeout, LogEvent::AdminLoginAttempt,
        LogEvent::AdminLoginSucceeded, LogEvent::AdminLoginFailed, LogEvent::AdminSetupCompleted,
        LogEvent::AdminConfigChanged, LogEvent::AdminTokenRejected, LogEvent::CookieSet,
        LogEvent::CookieValidationFailed, LogEvent::DiskCacheEvicted,
        LogEvent::DiskFullAfterEviction,
    ];
    let mut seen = std::collections::HashSet::new();
    for ev in all {
        let s = ev.as_str();
        assert!(s.chars().all(|c| c.is_ascii_lowercase() || c == '_'));
        assert!(seen.insert(s), "duplicate wire name {s}");
    }
}

#[test]
fn debug_prints_redacted() {
    let secret = Redacted("hunter2".to_string());
    assert_eq!(secret.debug_string(), "[redacted]");
}

#[test]
fn deref_exposes_inner_value() {
    let secret = Redacted("hello".to_string());
    assert_eq!(&*secret, "hello");
}

#[test]
fn from_constructor_wraps() {
    let r: Redacted<u32> = 42.into();
    assert_eq!(*r, 42);
}

#[test]
fn test_sanitize_basic() {
    assert_eq!(sanitize_filename("hello world"), "hello world");
}

#[test]
fn test_sanitize_illegal_chars() {
    assert_eq!(sanitize_filename("a<b>c:d"), "a_b_c_d");
}

#[test]
fn test_sanitize_empty() {
    assert_eq!(sanitize_filename("..."), "unknown");
}

#[test]
fn test_sanitize_long() {
    let long = "a".repeat(300);
    assert_eq!(sanitize_filename(&long).len(), 200);
}

#[test]
fn sanitize_cuts_on_char_boundary_and_trims() {
    // 67 three-byte characters = 201 bytes: cut to 66 characters (198 bytes)
    let long = "音".repeat(67);
    let r = sanitize_filename(&long);
    assert_eq!(r.len(), 198);
    assert_eq!(r.chars().count(), 66);
    assert_eq!(sanitize_filename(" . a/b?c*d|e\\f\"g . "), "a_b_c_d_e_f_g");
    assert_eq!(sanitize_filename(""), "unknown");
}

fn float_reference(size_bytes: u64) -> String {
    if size_bytes == 0 {
        return "0B".to_string();
    }
    let units = ["B", "KB", "MB", "GB", "TB"];
    let mut size = size_bytes as f64;
    let mut unit_index = 0;
    while size >= 1024.0 && unit_index < units.len() - 1 {
        size /= 1024.0;
        unit_index += 1;
    }
    format!("{:.2}{}", size, units[unit_index])
}

#[test]
fn format_file_size_values() {
    assert_eq!(format_file_size(0), "0B");
    assert_eq!(format_file_size(1), "1.00B");
    assert_eq!(format_file_size(1023), "1023.00B");
    assert_eq!(format_file_size(1024), "1.00KB");
    assert_eq!(format_file_size(1536), "1.50KB");
    assert_eq!(format_file_size(5 * 1024 * 1024), "5.00MB");
    assert_eq!(format_file_size(1_048_575), "1024.00KB");
}

#[test]
fn format_file_size_matches_float_formatting() {
    let mut samples: Vec<u64> = vec![
        1152, 1153, 1151, 1_099_511_627_776, 1_125_899_906_842_624, u64::MAX, u64::MAX - 1,
        (1u64 << 53) + 1, (1u64 << 60) + 12345, 123_456_789, 987_654_321_000,
    ];
    let mut x: u64 = 0x9E37_79B9_7F4A_7C15;
    for _ in 0..2000 {
        x ^= x << 13;
        x ^= x >> 7;
        x ^= x << 17;
        samples.push(x >> (x % 64));
    }
    for n in 0..5000u64 {
        samples.push(n * 7 + 1000);
    }
    for s in samples {
        assert_eq!(format_file_size(s), float_reference(s), "size {s}");
    }
}

#[test]
fn runtime_config_default_validates() {
    let rc = RuntimeConfig::default();
    assert!(rc.validate().is_ok());
    assert_eq!(rc.ranged_threads, 8);
    assert_eq!(rc.cover_cache_ttl_secs, 600);
    assert_eq!(rc.cover_cache_max_size, 50);
    assert_eq!(rc.max_retries, 5);
    assert_eq!(rc.stall_secs, 30);
    assert_eq!(rc.quality_fallback_floor, "standard");
}

#[test]
fn runtime_config_reports_first_violation() {
    let rc = RuntimeConfig { parse_concurrency: 0, max_retries: 0, ..RuntimeConfig::default() };
    assert_eq!(rc.validate().unwrap_err(), "parse_concurrency must be 1..50");
    let rc = RuntimeConfig { max_retries: 21, ..RuntimeConfig::default() };
    assert_eq!(rc.validate().unwrap_err(), "max_retries must be 0..20");
    let rc = RuntimeConfig { max_retries: 0, ..RuntimeConfig::default() };
    assert!(rc.validate().is_ok());
    let rc = RuntimeConfig { rate_limit_rps_per_user: 10, rate_limit_burst: 5, ..RuntimeConfig::default() };
    assert_eq!(rc.validate().unwrap_err(), "rate_limit_burst must be >= rate_limit_rps_per_user");
    let rc = RuntimeConfig { rate_limit_rps_per_user: 0, rate_limit_burst: 0, ..RuntimeConfig::default() };
    assert!(rc.validate().is_ok());
    let rc = RuntimeConfig { quality_fallback_floor: "ultra".into(), ..RuntimeConfig::default() };
    assert_eq!(rc.validate().unwrap_err(), "quality_fallback_floor must be a valid Quality wire string");
    let rc = RuntimeConfig { quality_fallback_floor: "dolby".into(), ..RuntimeConfig::default() };
    assert!(rc.validate().is_ok());
    let rc = RuntimeConfig { stall_secs: 601, ..RuntimeConfig::default() };
    assert_eq!(rc.validate().unwrap_err(), "stall_secs must be 5..=600");
    let rc = RuntimeConfig { min_free_disk: 104_857_599, ..RuntimeConfig::default() };
    assert_eq!(rc.validate().unwrap_err(), "min_free_disk must be >= 100MB");
}

#[test]
fn bounds_accept_end_points() {
    let b = Bound::range(1, 50);
    assert!(b.accepts(1) && b.accepts(50) && !b.accepts(0) && !b.accepts(51));
    let b = Bound::at_least(60);
    assert!(b.accepts(60) && b.accepts(u64::MAX) && !b.accepts(59));
    assert_eq!(bounds::ranged_threads().max, Some(32));
    assert_eq!(bounds::min_free_disk().min, 104_857_600);
}
