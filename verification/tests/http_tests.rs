use std::time::Duration;

use netease_music_api::http_error::HttpFailureKind;
use netease_music_api::retry::{next_retry, ClientProfile, RetryPolicy, RetryWait};
use netease_music_api::runtime_config::RuntimeConfig;
use netease_music_api::transfer::DownloadConfig;

#[test]
fn is_retryable_exhaustive_classification() {
    assert!(HttpFailureKind::Network("x".into()).is_retryable());
    assert!(HttpFailureKind::Timeout.is_retryable());
    assert!(HttpFailureKind::Server5xx { status: 503 }.is_retryable());
    assert!(HttpFailureKind::Quota { retry_after: None }.is_retryable());
    assert!(!HttpFailureKind::AuthExpired.is_retryable());
    assert!(!HttpFailureKind::Permanent4xx { status: 404 }.is_retryable());
}

#[test]
fn is_url_refreshable_orthogonal_to_retryable() {
    let cases: &[(HttpFailureKind, bool, bool)] = &[
        (HttpFailureKind::Network("x".into()), true, false),
        (HttpFailureKind::Timeout, true, false),
        (HttpFailureKind::Server5xx { status: 503 }, true, false),
        (HttpFailureKind::Quota { retry_after: None }, true, false),
        (HttpFailureKind::AuthExpired, false, true),
        (HttpFailureKind::Permanent4xx { status: 403 }, false, true),
        (HttpFailureKind::Permanent4xx { status: 404 }, false, true),
        (HttpFailureKind::Permanent4xx { status: 410 }, false, true),
        (HttpFailureKind::Permanent4xx { status: 400 }, false, false),
        (HttpFailureKind::Permanent4xx { status: 405 }, false, false),
        (HttpFailureKind::Permanent4xx { status: 416 }, false, false),
        (HttpFailureKind::Permanent4xx { status: 451 }, false, false),
    ];
    for (kind, want_retry, want_refresh) in cases {
        assert_eq!(kind.is_retryable(), *want_retry, "{kind:?} is_retryable mismatch");
        assert_eq!(kind.is_url_refreshable(), *want_refresh, "{kind:?} is_url_refreshable mismatch");
    }
}

#[test]
fn retry_after_only_for_quota() {
    assert_eq!(HttpFailureKind::Quota { retry_after: Some(20) }.retry_after(), Some(20));
    assert_eq!(HttpFailureKind::Quota { retry_after: None }.retry_after(), None);
    assert_eq!(HttpFailureKind::Timeout.retry_after(), None);
}

#[test]
fn from_reqwest_flags() {
    assert_eq!(HttpFailureKind::from_reqwest(true, "t".into()), HttpFailureKind::Timeout);
    assert_eq!(
        HttpFailureKind::from_reqwest(false, "conn reset".into()),
        HttpFailureKind::Network("conn reset".into())
    );
}

#[test]
fn from_response_2xx_returns_none() {
    assert!(HttpFailureKind::from_response(200, b"").is_none());
    assert!(HttpFailureKind::from_response(206, b"").is_none());
}

#[test]
fn from_response_429_maps_to_quota() {
    let kind = HttpFailureKind::from_response(429, b"").unwrap();
    assert!(matches!(kind, HttpFailureKind::Quota { .. }));
}

#[test]
fn from_response_5xx_maps_to_server_error() {
    let kind = HttpFailureKind::from_response(500, b"").unwrap();
    assert!(matches!(kind, HttpFailureKind::Server5xx { status: 500 }));
    if let HttpFailureKind::Server5xx { status } = kind {
        assert_eq!(status, 500);
    }
}

#[test]
fn from_response_401_maps_to_auth_expired() {
    let kind = HttpFailureKind::from_response(401, b"").unwrap();
    assert!(matches!(kind, HttpFailureKind::AuthExpired));
}

#[test]
fn from_response_netease_minus_460_maps_to_quota() {
    let body = br#"{"code":-460,"msg":"Cheating"}"#;
    let kind = HttpFailureKind::from_response(200, body);
    assert!(kind.is_none(), "200 status alone returns None — caller peek body");
}

#[test]
fn from_response_4xx_other_maps_to_permanent() {
    let kind = HttpFailureKind::from_response(404, b"").unwrap();
    assert!(matches!(kind, HttpFailureKind::Permanent4xx { status: 404 }));
    if let HttpFailureKind::Permanent4xx { status } = kind {
        assert_eq!(status, 404);
    }
}

#[test]
fn netease_minus_301_in_body_is_auth_expired() {
    let body = br#"{"code":-301,"msg":"deactivated"}"#;
    let kind = HttpFailureKind::from_response(200, body);
    assert!(kind.is_none());
    let kind401 = HttpFailureKind::from_response(401, body).unwrap();
    assert!(matches!(kind401, HttpFailureKind::AuthExpired));
}

#[test]
fn from_response_body_codes_on_error_status() {
    let kind = HttpFailureKind::from_response(503, br#"{"code":-461}"#).unwrap();
    assert!(matches!(kind, HttpFailureKind::Quota { retry_after: None }));
    let kind = HttpFailureKind::from_response(404, br#"{"code":-301}"#).unwrap();
    assert!(matches!(kind, HttpFailureKind::AuthExpired));
    assert!(HttpFailureKind::from_response(302, b"").is_none());
}

#[test]
fn from_body_200_minus_460_is_quota() {
    let body = br#"{"code":-460,"msg":"Cheating"}"#;
    let kind = HttpFailureKind::from_response_body_200(body).unwrap();
    assert!(matches!(kind, HttpFailureKind::Quota { .. }));
    assert!(kind.is_retryable(), "-460 必须 is_retryable");
}

#[test]
fn from_body_200_minus_461_is_quota() {
    let body = br#"{"code":-461}"#;
    let kind = HttpFailureKind::from_response_body_200(body).unwrap();
    assert!(matches!(kind, HttpFailureKind::Quota { .. }));
}

#[test]
fn from_body_200_minus_301_is_auth_expired() {
    let body = br#"{"code":-301,"msg":"deactivated"}"#;
    let kind = HttpFailureKind::from_response_body_200(body).unwrap();
    assert!(matches!(kind, HttpFailureKind::AuthExpired));
    assert!(!kind.is_retryable(), "auth 错不重试");
}

#[test]
fn from_body_200_normal_response_returns_none() {
    let body = br#"{"code":200,"data":[{"id":12345}]}"#;
    assert!(HttpFailureKind::from_response_body_200(body).is_none());
}

#[test]
fn from_body_200_empty_body_returns_none() {
    assert!(HttpFailureKind::from_response_body_200(b"").is_none());
}

#[test]
fn from_body_200_invalid_utf8_does_not_panic() {
    let body = &[0xFF, 0xFE, 0xFD, 0xFC];
    assert!(HttpFailureKind::from_response_body_200(body).is_none());
}

#[test]
fn from_body_200_msg_with_460_no_false_positive() {
    let body = br#"{"msg":"server returned -460 message"}"#;
    assert!(HttpFailureKind::from_response_body_200(body).is_none());
}

#[test]
fn from_body_200_invalid_utf8_with_marker_is_none() {
    let mut body = br#"{"code":-301}"#.to_vec();
    body.push(0xFF);
    assert!(HttpFailureKind::from_response_body_200(&body).is_none());
}

#[test]
fn parse_profile_has_5s_connect_10s_read() {
    assert_eq!(Duration::from_secs(ClientProfile::Parse.connect_timeout()), Duration::from_secs(5));
    assert_eq!(Duration::from_secs(ClientProfile::Parse.read_timeout()), Duration::from_secs(10));
}

#[test]
fn download_profile_has_10s_connect_60s_read() {
    assert_eq!(
        Duration::from_secs(ClientProfile::Download.connect_timeout()),
        Duration::from_secs(10)
    );
    assert_eq!(
        Duration::from_secs(ClientProfile::Download.read_timeout()),
        Duration::from_secs(60)
    );
}

#[test]
fn profiles_distinct_timeouts() {
    assert_ne!(
        ClientProfile::Parse.connect_timeout(),
        ClientProfile::Download.connect_timeout()
    );
    assert_ne!(ClientProfile::Parse.read_timeout(), ClientProfile::Download.read_timeout());
}

fn rc_with_max_retries(n: usize) -> RuntimeConfig {
    RuntimeConfig { max_retries: n, ..RuntimeConfig::default() }
}

#[test]
fn parse_profile_caps_at_3_attempts() {
    let rc = rc_with_max_retries(10);
    let p = RetryPolicy::from_runtime_config(&rc, ClientProfile::Parse);
    assert_eq!(p.backoff.len(), 2);
    assert_eq!(p.max_attempts(), 3);
}

#[test]
fn download_profile_caps_at_5_attempts() {
    let rc = rc_with_max_retries(10);
    let p = RetryPolicy::from_runtime_config(&rc, ClientProfile::Download);
    assert_eq!(p.backoff.len(), 4);
    assert_eq!(p.max_attempts(), 5);
}

#[test]
fn max_retries_1_yields_2_attempts() {
    let rc = rc_with_max_retries(1);
    let p = RetryPolicy::from_runtime_config(&rc, ClientProfile::Download);
    assert_eq!(p.backoff.len(), 1);
    assert_eq!(p.max_attempts(), 2);
}

#[test]
fn max_retries_zero_does_not_underflow() {
    let rc = rc_with_max_retries(0);
    let p = RetryPolicy::from_runtime_config(&rc, ClientProfile::Parse);
    assert_eq!(p.backoff.len(), 1, "至少保留 1 次重试（from_runtime_config 兜底）");
}

#[test]
fn fixed_constructor_preserves_order() {
    let p = RetryPolicy::fixed(&[100, 200, 300]);
    assert_eq!(Duration::from_millis(p.backoff[0]), Duration::from_millis(100));
    assert_eq!(Duration::from_millis(p.backoff[2]), Duration::from_millis(300));
}

#[test]
fn max_attempts_is_backoff_plus_one() {
    assert_eq!(RetryPolicy::fixed(&[1, 2, 3]).max_attempts(), 4);
}

#[test]
fn default_for_profile_parse_yields_3_attempts() {
    let p = RetryPolicy::default_for_profile(ClientProfile::Parse);
    assert_eq!(p.max_attempts(), 3);
    assert_eq!(Duration::from_millis(p.backoff[0]), Duration::from_millis(500));
    assert_eq!(Duration::from_millis(p.backoff[1]), Duration::from_millis(1000));
}

#[test]
fn default_for_profile_download_yields_5_attempts() {
    let p = RetryPolicy::default_for_profile(ClientProfile::Download);
    assert_eq!(p.max_attempts(), 5);
}

#[test]
fn for_profile_max_retries_zero_equals_default() {
    for profile in [ClientProfile::Parse, ClientProfile::Download] {
        let zero = RetryPolicy::for_profile_with_max_retries(0, profile);
        let default = RetryPolicy::default_for_profile(profile);
        assert_eq!(zero.backoff, default.backoff, "for_profile_max_retries_zero must match default_for_profile for {profile:?}");
    }
}

#[test]
fn from_runtime_config_default_matches_default_for_profile() {
    let rc = RuntimeConfig::default();
    let from_rc_parse = RetryPolicy::from_runtime_config(&rc, ClientProfile::Parse);
    let default_parse = RetryPolicy::default_for_profile(ClientProfile::Parse);
    assert_eq!(from_rc_parse.backoff, default_parse.backoff);
    let from_rc_dl = RetryPolicy::from_runtime_config(&rc, ClientProfile::Download);
    let default_dl = RetryPolicy::default_for_profile(ClientProfile::Download);
    assert_eq!(from_rc_dl.backoff, default_dl.backoff);
}

#[test]
fn download_single_stream_uses_config_max_retries() {
    let config = DownloadConfig { max_retries: 1, ..DownloadConfig::default() };
    let policy = RetryPolicy::for_profile_with_max_retries(config.max_retries, ClientProfile::Download);
    assert_eq!(policy.max_attempts(), 2, "DownloadConfig max_retries=1 must yield 2 attempts (1 + 1 retry)");
    let config_large = DownloadConfig { max_retries: 15, ..DownloadConfig::default() };
    let policy_large =
        RetryPolicy::for_profile_with_max_retries(config_large.max_retries, ClientProfile::Download);
    assert_eq!(
        policy_large.max_attempts(),
        5,
        "DownloadConfig max_retries=15 must clamp to Download baseline = 5 attempts"
    );
}

#[test]
fn retry_decision_follows_policy() {
    let policy = RetryPolicy::fixed(&[1, 2, 3]);
    // a transient failure waits the backoff step of its attempt
    assert_eq!(next_retry(&policy, 0, &HttpFailureKind::Timeout), Some(RetryWait::Backoff(1)));
    assert_eq!(next_retry(&policy, 2, &HttpFailureKind::Timeout), Some(RetryWait::Backoff(3)));
    // the last attempt gives up
    assert_eq!(next_retry(&policy, 3, &HttpFailureKind::Timeout), None);
    // a permanent failure gives up at once
    assert_eq!(next_retry(&policy, 0, &HttpFailureKind::Permanent4xx { status: 404 }), None);
    assert_eq!(next_retry(&policy, 0, &HttpFailureKind::AuthExpired), None);
    // the server's hint wins over the backoff table
    let policy = RetryPolicy::fixed(&[10_000, 10_000]);
    assert_eq!(
        next_retry(&policy, 0, &HttpFailureKind::Quota { retry_after: Some(20) }),
        Some(RetryWait::ServerHint(20))
    );
}

#[test]
fn retry_loop_attempt_counts() {
    // simulate the retry loop: count attempts until the decision gives up
    fn run(policy: &RetryPolicy, kind: HttpFailureKind) -> usize {
        let mut attempt = 0;
        loop {
            attempt += 1;
            if next_retry(policy, attempt - 1, &kind).is_none() {
                return attempt;
            }
        }
    }
    let policy = RetryPolicy::fixed(&[1, 1, 1]);
    assert_eq!(run(&policy, HttpFailureKind::Network("simulated is_body".into())), 4);
    assert_eq!(run(&policy, HttpFailureKind::Permanent4xx { status: 404 }), 1);
    assert_eq!(run(&policy, HttpFailureKind::AuthExpired), 1);
}
