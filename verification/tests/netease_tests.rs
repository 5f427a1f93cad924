use base64::Engine;
use cipher::{BlockEncryptMut, KeyInit};
use md5::Digest;
use netease_music_api::netease::{
    check_response_code, classify_netease_code, default_cookies, encrypt_params,
    extract_user_key, get_pic_url, hex_digest, is_short_link, md5_hex, music_id_from_url,
    netease_encrypt_id, rate_limit_key, ApiError, FileCookieStore, StringHashMap,
};
use netease_music_api::token::{
    hash_password, issue_token, issue_token_at, password_hash_outcome, validate_token,
    validate_token_at, verify_password,
};

fn cookies(pairs: &[(&str, &str)]) -> StringHashMap<String> {
    let mut c = StringHashMap::new();
    for (k, v) in pairs {
        c.insert(k.to_string(), v.to_string());
    }
    c
}

#[test]
fn extract_user_key_takes_first_8_chars_of_music_u() {
    let c = cookies(&[("MUSIC_U", "abcdefghijklmnop")]);
    assert_eq!(extract_user_key(&c), "abcdefgh");
}

#[test]
fn extract_user_key_anon_when_no_cookie() {
    let c = StringHashMap::new();
    assert_eq!(extract_user_key(&c), "anon");
}

#[test]
fn extract_user_key_anon_when_music_u_empty() {
    let c = cookies(&[("MUSIC_U", "")]);
    assert_eq!(extract_user_key(&c), "anon");
}

#[test]
fn extract_user_key_short_music_u_full() {
    let c = cookies(&[("MUSIC_U", "abc")]);
    assert_eq!(extract_user_key(&c), "abc");
}

#[test]
fn rate_limit_key_uses_api_host() {
    let k = rate_limit_key(&cookies(&[("MUSIC_U", "音乐用户标识符很长"), ("os", "pc")]));
    assert_eq!(k.host, "music.163.com");
    assert_eq!(k.user, "音乐用户标识符很");
}

#[test]
fn default_cookie_values() {
    let m = default_cookies();
    assert_eq!(m.len(), 4);
    assert_eq!(m.get("os").map(String::as_str), Some("pc"));
    assert_eq!(m.get("appver").map(String::as_str), Some("8.9.75"));
    assert_eq!(m.get("osver").map(String::as_str), Some(""));
    assert_eq!(m.get("deviceId").map(String::as_str), Some("pyncm!"));
}

#[test]
fn netease_codes_classified() {
    assert_eq!(classify_netease_code(-460, "x"), ApiError::QuotaHit { retry_after: None });
    assert_eq!(classify_netease_code(-461, "x"), ApiError::QuotaHit { retry_after: None });
    assert_eq!(classify_netease_code(-301, "x"), ApiError::AuthExpired);
    assert_eq!(
        classify_netease_code(404, "missing"),
        ApiError::NeteaseCode { code: 404, msg: "missing".into() }
    );
    assert!(check_response_code(None, None).is_ok());
    assert!(check_response_code(Some(200), Some("ok")).is_ok());
    assert_eq!(
        check_response_code(Some(-2), None),
        Err(ApiError::NeteaseCode { code: -2, msg: "unknown error".into() })
    );
}

#[test]
fn test_md5_hex() {
    assert_eq!(md5_hex("hello"), "5d41402abc4b2a76b9719d911017c592");
    assert_eq!(hex_digest(&[0x00, 0x0f, 0xa5, 0xff]), "000fa5ff");
}

#[test]
fn test_encrypt_id_not_empty() {
    let result = netease_encrypt_id("109951167805892883");
    assert!(!result.is_empty());
    assert!(!result.contains('/') && !result.contains('+'));
}

#[test]
fn test_get_pic_url_none() {
    assert_eq!(get_pic_url(None, 300), "");
}

#[test]
fn test_get_pic_url_valid() {
    let url = get_pic_url(Some(109951167805892883), 300);
    assert!(url.starts_with("https://p3.music.126.net/"));
    assert!(url.contains("300y300"));
    assert!(url.contains("/109951167805892883.jpg?param=300y300"));
    assert_eq!(get_pic_url(Some(0), 300), "");
}

#[test]
fn pic_url_matches_independent_computation() {
    // the same steps written directly against the crates
    let id = "109951167805892883";
    let magic = b"3go8&$8*3*3h0k(2)2";
    let xored: Vec<u8> = id.bytes().enumerate().map(|(i, b)| b ^ magic[i % magic.len()]).collect();
    let digest = md5::Md5::digest(&xored);
    let b64 = base64::engine::general_purpose::STANDARD.encode(digest);
    let expected = b64.replace('/', "_").replace('+', "-");
    assert_eq!(netease_encrypt_id(id), expected);
    assert_eq!(
        get_pic_url(Some(-5), 64),
        format!("https://p3.music.126.net/{}/-5.jpg?param=64y64", netease_encrypt_id("-5"))
    );
}

#[test]
fn test_encrypt_params_deterministic() {
    let url = "https://interface3.music.163.com/eapi/song/enhance/player/url/v1";
    let payload = r#"{"encodeType":"flac","ids":[12345],"level":"lossless"}"#;
    let result1 = encrypt_params(url, payload);
    let result2 = encrypt_params(url, payload);
    assert_eq!(result1, result2);
    assert!(!result1.is_empty());
    assert!(result1.chars().all(|c| c.is_ascii_hexdigit()));
}

#[test]
fn encrypt_params_matches_independent_computation() {
    let url = "https://interface3.music.163.com/eapi/song/enhance/player/url/v1";
    let payload = r#"{"ids":[1]}"#;
    let path = "/api/song/enhance/player/url/v1";
    let digest = md5_hex(&format!("nobody{path}use{payload}md5forencrypt"));
    let params = format!("{path}-36cd479b6b5-{payload}-36cd479b6b5-{digest}");
    let enc = ecb::Encryptor::<aes::Aes128>::new(b"e82ckenh8dichen8".into());
    let ct = enc.encrypt_padded_vec_mut::<cipher::block_padding::Pkcs7>(params.as_bytes());
    let expected: String = ct.iter().map(|b| format!("{b:02x}")).collect();
    assert_eq!(encrypt_params(url, payload), expected);
    // an unparsable URL falls back to the path "/"
    let fallback = encrypt_params("not a url", payload);
    let digest = md5_hex(&format!("nobody/use{payload}md5forencrypt"));
    let params = format!("/-36cd479b6b5-{payload}-36cd479b6b5-{digest}");
    let enc = ecb::Encryptor::<aes::Aes128>::new(b"e82ckenh8dichen8".into());
    let ct = enc.encrypt_padded_vec_mut::<cipher::block_padding::Pkcs7>(params.as_bytes());
    let expected: String = ct.iter().map(|b| format!("{b:02x}")).collect();
    assert_eq!(fallback, expected);
}

#[test]
fn music_id_extraction() {
    assert_eq!(music_id_from_url("https://music.163.com/song?id=12345&userid=9"), "12345");
    assert_eq!(music_id_from_url("https://music.163.com/#/song?id= 777 "), "777");
    assert_eq!(music_id_from_url("  1949  "), "1949");
    assert_eq!(music_id_from_url("https://music.163.com/song"), "https://music.163.com/song");
    assert!(is_short_link("http://163cn.tv/abc"));
    assert!(!is_short_link("https://music.163.com/song?id=1"));
}

#[test]
fn cookie_store_path() {
    let s = FileCookieStore::at_path("cookie.txt".to_string());
    assert_eq!(s.path(), "cookie.txt");
}

#[test]
fn test_issue_and_validate() {
    let secret = vec![42u8; 32];
    let token = issue_token(&secret);
    assert!(validate_token(&token, &secret).is_ok());
}

#[test]
fn test_invalid_signature() {
    let secret1 = vec![1u8; 32];
    let secret2 = vec![2u8; 32];
    let token = issue_token(&secret1);
    assert!(validate_token(&token, &secret2).is_err());
}

#[test]
fn test_tampered_token() {
    let secret = vec![42u8; 32];
    let token = issue_token(&secret);
    let tampered = format!("{token}x");
    assert!(validate_token(&tampered, &secret).is_err());
}

#[test]
fn token_expiry_boundary_and_errors() {
    let secret = vec![7u8; 16];
    let token = issue_token_at(&secret, 1_000);
    assert_eq!(validate_token_at(&token, &secret, 2_800), Ok(()));
    assert_eq!(validate_token_at(&token, &secret, 2_801), Err("token expired"));
    assert_eq!(validate_token_at("nodot", &secret, 0), Err("invalid token format"));
    assert_eq!(validate_token_at("!!.AAAA", &secret, 0), Err("invalid token encoding"));
    assert_eq!(validate_token_at("AAAA.AAAA", &secret, 0), Err("invalid token data"));
    let head = token.split('.').next().unwrap();
    assert_eq!(validate_token_at(&format!("{head}.!!"), &secret, 0), Err("invalid signature encoding"));
    assert_eq!(validate_token_at(&format!("{head}.AAAA"), &secret, 0), Err("invalid signature"));
}

#[test]
fn password_hash_verifies() {
    let h = hash_password("hunter2").unwrap();
    assert!(h.starts_with("$2b$12$"), "{h}");
    assert!(verify_password("hunter2", &h));
    assert!(!verify_password("hunter3", &h));
    assert!(!verify_password("hunter2", "not a bcrypt hash"));
}

#[test]
fn password_hash_outcome_passes_hash_and_maps_error() {
    assert_eq!(password_hash_outcome(Ok("$2b$12$x".to_string())).unwrap(), "$2b$12$x");
    match password_hash_outcome(Err("no entropy".to_string())) {
        Err(e) => assert_eq!(e.message(), "API error: Password hashing failed: no entropy"),
        Ok(_) => panic!("expected an error"),
    }
}
