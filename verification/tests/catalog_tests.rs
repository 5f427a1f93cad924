use serde_json::Value;

use netease_music_api::catalog::{
    album_info, album_track, album_url, artists_text, lyric_form, playlist_form, playlist_info,
    push_json_string, search_form, song_detail_param, song_detail_payload, song_url_params,
    song_url_payload, track_id_batches, track_summary,
};
use netease_music_api::error::AppError;
use netease_music_api::netease::{encrypt_params, get_pic_url};

fn header_json(request_id: u32) -> String {
    let mut config = serde_json::Map::new();
    config.insert("os".into(), Value::String("pc".into()));
    config.insert("appver".into(), Value::String("8.9.75".into()));
    config.insert("osver".into(), Value::String(String::new()));
    config.insert("deviceId".into(), Value::String("pyncm!".into()));
    config.insert("requestId".into(), Value::String(request_id.to_string()));
    serde_json::to_string(&config).unwrap()
}

fn payload_json(id: i64, quality: &str, request_id: u32) -> String {
    let mut payload = serde_json::Map::new();
    payload.insert("ids".into(), Value::Array(vec![Value::from(id)]));
    payload.insert("level".into(), Value::String(quality.into()));
    payload.insert("encodeType".into(), Value::String("flac".into()));
    payload.insert("header".into(), Value::String(header_json(request_id)));
    if quality == "sky" {
        payload.insert("immerseType".into(), Value::String("c51".into()));
    }
    serde_json::to_string(&Value::Object(payload)).unwrap()
}

#[test]
fn song_url_payload_matches_serde_json() {
    for (id, q, rid) in [(1_859_245_776i64, "lossless", 20_000_000u32), (-5, "sky", 29_999_999), (0, "q\"\\\n\t\u{1}é", 25_123_456)] {
        assert_eq!(song_url_payload(id, q, rid), payload_json(id, q, rid));
    }
}

#[test]
fn json_strings_match_serde_json() {
    for s in ["", "plain", "quote\"back\\slash", "ctl\u{0}\u{8}\u{c}\n\r\t\u{1f}\u{7f}", "中文/🎵"] {
        let mut out = String::new();
        push_json_string(&mut out, s);
        assert_eq!(out, serde_json::to_string(s).unwrap());
    }
}

#[test]
fn song_url_params_encrypt_the_payload() {
    let p = song_url_params("123", "exhigh", 21_000_000).unwrap();
    let expected = encrypt_params(
        "https://interface3.music.163.com/eapi/song/enhance/player/url/v1",
        &payload_json(123, "exhigh", 21_000_000),
    );
    assert_eq!(p, expected);
    match song_url_params("12a", "exhigh", 21_000_000) {
        Err(AppError::Validation(m)) => assert_eq!(m, "Invalid song ID: 12a"),
        other => panic!("unexpected {other:?}"),
    }
}

#[test]
fn song_detail_payloads() {
    assert_eq!(song_detail_payload(&vec![]), "[]");
    assert_eq!(song_detail_payload(&vec![1, -2]), "[{\"id\":1,\"v\":0},{\"id\":-2,\"v\":0}]");
    let items: Vec<Value> = [7i64, 8]
        .iter()
        .map(|id| {
            let mut m = serde_json::Map::new();
            m.insert("id".into(), Value::from(*id));
            m.insert("v".into(), Value::from(0));
            Value::Object(m)
        })
        .collect();
    assert_eq!(song_detail_payload(&vec![7, 8]), serde_json::to_string(&items).unwrap());
    assert_eq!(song_detail_param("42").unwrap(), "[{\"id\":42,\"v\":0}]");
    assert!(matches!(song_detail_param("x"), Err(AppError::Validation(_))));
}

#[test]
fn track_ids_in_batches_of_100() {
    let ids: Vec<i64> = (0..250).collect();
    let b = track_id_batches(&ids);
    assert_eq!(b.len(), 3);
    assert_eq!(b[0], (0..100).collect::<Vec<i64>>());
    assert_eq!(b[1], (100..200).collect::<Vec<i64>>());
    assert_eq!(b[2], (200..250).collect::<Vec<i64>>());
    assert!(track_id_batches(&vec![]).is_empty());
    assert_eq!(track_id_batches(&(0..100).collect()).len(), 1);
}

#[test]
fn track_summaries() {
    let names = vec!["A".to_string(), "B".to_string()];
    assert_eq!(artists_text(&names), "A/B");
    assert_eq!(artists_text(&vec![]), "");
    let t = track_summary(Some(5), Some("Song".into()), &names, None, Some("http://p".into()));
    assert_eq!(t.id, 5);
    assert_eq!(t.name, "Song");
    assert_eq!(t.artists, "A/B");
    assert_eq!(t.album, "");
    assert_eq!(t.pic_url, "http://p");
    let d = track_summary(None, None, &vec![], None, None);
    assert_eq!(d.id, 0);
    assert_eq!(d.name, "");
    let a = album_track(Some(1), None, &names, Some("Al".into()), Some(109951163076136))
;
    assert_eq!(a.pic_url, get_pic_url(Some(109951163076136), 300));
    let info = album_info(Some(9), Some("Al".into()), None, None, Some(1_600_000_000_000), None, vec![a]);
    assert_eq!(info.cover_img_url, "");
    assert_eq!(info.songs.len(), 1);
    let pl = playlist_info(Some(3), None, None, Some("me".into()), None, None, vec![]);
    assert_eq!(pl.track_count, 0);
    assert_eq!(pl.creator, "me");
}

#[test]
fn request_forms() {
    let f = search_form("hello", 30);
    assert_eq!(f, vec![("s".into(), "hello".into()), ("type".into(), "1".into()), ("limit".into(), "30".into())]);
    let l = lyric_form("7");
    assert_eq!(l.len(), 9);
    assert_eq!(l[0], ("id".to_string(), "7".to_string()));
    assert_eq!(l[1], ("cp".to_string(), "false".to_string()));
    assert_eq!(l[8], ("yrv".to_string(), "0".to_string()));
    assert_eq!(playlist_form("99"), vec![("id".to_string(), "99".to_string())]);
    assert_eq!(album_url("12"), "https://music.163.com/api/v1/album/12");
}
