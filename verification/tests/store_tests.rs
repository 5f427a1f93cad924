use netease_music_api::api_client::{
    client_failure, cookie_header, exchange_outcome, request_cookie_pairs, ClientFailure,
};
use netease_music_api::config::AppConfig;
use netease_music_api::disk_guard::{add_freed, required_bytes, space_query_failed, space_verdict};
use netease_music_api::error::AppError;
use netease_music_api::http_error::HttpFailureKind;
use netease_music_api::netease::{anonymous_rate_limit_key, FileCookieStore};
use netease_music_api::paths::{display, part_path_for, sidecar_path_for};
use netease_music_api::scan::TagKind;
use netease_music_api::stats::{day_key, month_key, BucketFigures, StatsData};
use netease_music_api::tags::{download_tag_kind, embeds_cover, retry_without_cover, track_tag};
use netease_music_api::tasks::{new_task_id, TaskStoreSettings, TaskTable};
use netease_music_api::token::{load_or_create_secret, password_hash_from_file};
use netease_music_api::zip_names::{dedup_name, track_entry_names, StringHashSet};

#[test]
fn stats_increment_counts_one_bucket() {
    let mut d = StatsData::new();
    d.increment("parse", "2024-05", "2024-05-01");
    d.increment("parse", "2024-05", "2024-05-02");
    d.increment("download", "2024-05", "2024-05-02");
    d.increment("anything", "2024-06", "2024-06-01");
    let s = d.snapshot("2024-05", "2024-05-02", 1, 0);
    assert_eq!(s.parse, BucketFigures { total: 2, monthly: 2, daily: 1, current: 1 });
    assert_eq!(s.download, BucketFigures { total: 2, monthly: 1, daily: 1, current: 0 });
    let legacy = StatsData::from_legacy_total(Some(42));
    assert_eq!(legacy.parse.total, 42);
    assert_eq!(legacy.download.total, 0);
    assert_eq!(StatsData::from_legacy_total(None).parse.total, 0);
}

#[test]
fn stats_keys() {
    assert_eq!(month_key(2024, 5), "2024-05");
    assert_eq!(day_key(2024, 12, 3), "2024-12-03");
    assert_eq!(month_key(987, 11), "0987-11");
}

#[test]
fn task_expiry() {
    let mut s = TaskStoreSettings::new(3600, 7200, 60);
    assert!(!s.task_expired(true, 100, 3700));
    assert!(s.task_expired(true, 100, 3701));
    assert!(!s.task_expired(false, 0, 1_000_000));
    assert!(!s.zip_expired(7200));
    assert!(s.zip_expired(7201));
    s.update_config(1, 2, 3);
    assert_eq!(s, TaskStoreSettings { task_ttl_secs: 1, zip_max_age_secs: 2, cleanup_interval_secs: 3 });
    let id = new_task_id();
    assert_eq!(id.len(), 12);
    for (i, c) in id.chars().enumerate() {
        if i == 8 {
            assert_eq!(c, '-');
        } else {
            assert!(c.is_ascii_digit() || ('a'..='f').contains(&c), "{id}");
        }
    }
    assert_ne!(id, new_task_id());
}

#[test]
fn download_tags() {
    assert_eq!(download_tag_kind("/d/a.mp3"), Some(TagKind::Id3v2));
    assert_eq!(download_tag_kind("/d/a.FLAC"), Some(TagKind::VorbisComments));
    assert_eq!(download_tag_kind("/d/a.m4a"), Some(TagKind::Mp4Ilst));
    assert_eq!(download_tag_kind("/d/a.ogg"), None);
    assert_eq!(track_tag(3), Some(3));
    assert_eq!(track_tag(0), None);
    assert!(embeds_cover(Some(5)));
    assert!(!embeds_cover(Some(0)));
    assert!(!embeds_cover(None));
    assert!(retry_without_cover(true, true));
    assert!(!retry_without_cover(true, false));
    assert!(!retry_without_cover(false, true));
}

#[test]
fn secret_and_password_files() {
    let stored = vec![7u8; 32];
    assert_eq!(load_or_create_secret(Some(stored.clone())), (stored, false));
    let (fresh, new) = load_or_create_secret(Some(vec![1, 2, 3]));
    assert!(new);
    assert_eq!(fresh.len(), 32);
    let (fresh2, new2) = load_or_create_secret(None);
    assert!(new2);
    assert_eq!(fresh2.len(), 32);
    assert_eq!(password_hash_from_file(Some("  $2b$12$abc \n".into())), Some("$2b$12$abc".into()));
    assert_eq!(password_hash_from_file(Some(" \n".into())), None);
    assert_eq!(password_hash_from_file(None), None);
}

#[test]
fn api_exchanges() {
    assert_eq!(exchange_outcome(200, b"{\"code\":200}"), Ok("{\"code\":200}".to_string()));
    assert_eq!(exchange_outcome(200, b"{\"code\":-460}"), Err(HttpFailureKind::Quota { retry_after: None }));
    assert_eq!(exchange_outcome(200, b"{\"code\":-301}"), Err(HttpFailureKind::AuthExpired));
    let bad = exchange_outcome(200, b"ok\xFF");
    let expected = format!("body utf8 invalid: {}", String::from_utf8(b"ok\xFF".to_vec()).unwrap_err());
    assert_eq!(bad, Err(HttpFailureKind::Network(expected)));
    assert_eq!(exchange_outcome(404, b""), Err(HttpFailureKind::Permanent4xx { status: 404 }));
    assert_eq!(exchange_outcome(301, b""), Err(HttpFailureKind::Network("HTTP 301 Moved Permanently".into())));
    assert_eq!(client_failure(&HttpFailureKind::AuthExpired), ClientFailure::AuthExpired);
    assert_eq!(
        client_failure(&HttpFailureKind::Quota { retry_after: Some(2500) }),
        ClientFailure::RateLimited(Some(2))
    );
    assert_eq!(
        client_failure(&HttpFailureKind::Timeout),
        ClientFailure::Api("HTTP request failed: timeout".into())
    );
}

#[test]
fn disk_space_verdicts() {
    assert_eq!(required_bytes(10, 20), 30);
    assert_eq!(required_bytes(u64::MAX, 1), u64::MAX);
    assert!(space_verdict(30, 30).is_ok());
    match space_verdict(3 * 1024 * 1024, 10 * 1024 * 1024) {
        Err(AppError::DiskFull(m)) => assert_eq!(m, "磁盘空间不足: 可用 3MB, 需要 10MB"),
        other => panic!("unexpected {other:?}"),
    }
    match space_query_failed("denied") {
        AppError::Download(m) => assert_eq!(m, "无法查询磁盘空间: denied"),
        other => panic!("unexpected {other:?}"),
    }
    assert_eq!(add_freed(5, 6), 11);
    assert_eq!(add_freed(u64::MAX, 6), u64::MAX);
}

#[test]
fn cookie_store_text() {
    assert_eq!(FileCookieStore::stored_text("  MUSIC_U=abc \n"), "MUSIC_U=abc");
    match FileCookieStore::io_failure(true, "gone") {
        AppError::Cookie(m) => assert_eq!(m, "Failed to read cookie file: gone"),
        other => panic!("unexpected {other:?}"),
    }
    match FileCookieStore::io_failure(false, "ro") {
        AppError::Cookie(m) => assert_eq!(m, "Failed to write cookie file: ro"),
        other => panic!("unexpected {other:?}"),
    }
    let k = anonymous_rate_limit_key();
    assert_eq!((k.host.as_str(), k.user.as_str()), ("music.163.com", "anon"));
}

#[test]
fn staging_paths() {
    assert_eq!(part_path_for("/d/song.flac"), "/d/song.flac.part");
    assert_eq!(sidecar_path_for("/d/song.flac.part"), "/d/song.flac.part.json");
    assert_eq!(display("/root/a/b.mp3", "/root"), "a/b.mp3");
    assert_eq!(display("/other/b.mp3", "/root"), "/other/b.mp3");
}

#[test]
fn zip_entry_names_are_unique() {
    let mut used = StringHashSet::new();
    assert_eq!(dedup_name("song", ".mp3", &mut used), "song.mp3");
    assert_eq!(dedup_name("song", ".mp3", &mut used), "song (2).mp3");
    assert_eq!(dedup_name("song", ".mp3", &mut used), "song (3).mp3");
    let (audio, cover, lyric) = track_entry_names("song", ".mp3", true, true, &mut used);
    assert_eq!(audio, "song (4).mp3");
    assert_eq!(cover, Some("song (4).jpg".into()));
    assert_eq!(lyric, Some("song (4).lrc".into()));
    let (_, c2, l2) = track_entry_names("other", ".flac", false, false, &mut used);
    assert_eq!((c2, l2), (None, None));
}

#[test]
fn app_config_defaults_and_env() {
    let mut c = AppConfig::default();
    assert_eq!(c.port, 5000);
    assert_eq!(c.host, "0.0.0.0");
    assert_eq!(c.runtime_config_file, "data/runtime_config.json");
    c.apply_env("PORT", "8080");
    assert_eq!(c.port, 8080);
    c.apply_env("PORT", "not a port");
    assert_eq!(c.port, 8080);
    c.apply_env("ADMIN_PASSWORD", "pw");
    assert_eq!(c.admin_password, Some("pw".into()));
}

#[test]
fn request_cookies_and_header() {
    let defaults = request_cookie_pairs(&vec![]);
    assert_eq!(cookie_header(&defaults), "os=pc; appver=8.9.75; osver=; deviceId=pyncm!");
    let user = vec![("os".to_string(), "android".to_string()), ("MUSIC_U".to_string(), "abc".to_string())];
    let merged = request_cookie_pairs(&user);
    assert_eq!(
        cookie_header(&merged),
        "appver=8.9.75; osver=; deviceId=pyncm!; os=android; MUSIC_U=abc"
    );
}

#[test]
fn task_table_cleanup_removes_only_expired_finished_tasks() {
    let mut t = TaskTable::new();
    let old_done = t.create(100);
    let old_running = t.create(100);
    let young_done = t.create(1_000);
    assert!(t.update(&old_done, true, Some("/tmp/a.zip".to_string())));
    assert!(t.update(&young_done, true, None));
    assert!(!t.update("missing", true, None));
    assert_eq!(t.get(&old_running), Some((false, 100, None)));
    let zips = t.cleanup(1_500, 600);
    assert_eq!(zips, vec!["/tmp/a.zip".to_string()]);
    assert!(t.get(&old_done).is_none());
    assert!(t.get(&old_running).is_some());
    assert!(t.get(&young_done).is_some());
    assert_eq!(t.remove(&young_done), Some((true, 1_000, None)));
    assert!(t.get(&young_done).is_none());
}
