//! Netease protocol details that do not touch the network: default cookies,
//! the rate-limit user key, response-code classification, cover picture
//! URLs, EAPI parameter encryption and song-id extraction from share links.

use vstd::prelude::*;

pub use vstd::hash_map::StringHashMap;
use vstd::string::StringSliceAdditionalSpecFns;

use crate::crypto::{
    aes128_ecb_pkcs7_encrypt, aes128_ecb_pkcs7_spec, base64_standard_encode, base64_standard_spec,
    md5_digest, md5_spec, url_path, url_path_spec,
};
use crate::error::AppError;
use crate::text::{
    chars_of, decimal, find_sub, find_sub_from, int_text, push_decimal, push_i64, push_str,
    string_from_range, trim,
};

verus! {

/// Client version announced in cookies and request headers.
pub open spec fn app_version() -> Seq<char> {
    "8.9.75"@
}

/// The cookies every request carries unless the user's cookies override them.
pub open spec fn is_default_cookies(m: Map<Seq<char>, String>) -> bool {
    &&& m.dom() =~= set!["os"@, "appver"@, "osver"@, "deviceId"@]
    &&& m["os"@]@ == "pc"@
    &&& m["appver"@]@ == app_version()
    &&& m["osver"@]@ == Seq::<char>::empty()
    &&& m["deviceId"@]@ == "pyncm!"@
}

/// The default cookies: `os=pc`, `appver=8.9.75`, an empty `osver` and
/// `deviceId=pyncm!`.
pub fn default_cookies() -> (m: StringHashMap<String>)
    ensures
        is_default_cookies(m@),
{
    let mut m: StringHashMap<String> = StringHashMap::new();
    m.insert(String::from_str("os"), String::from_str("pc"));
    m.insert(String::from_str("appver"), String::from_str("8.9.75"));
    m.insert(String::from_str("osver"), String::new());
    m.insert(String::from_str("deviceId"), String::from_str("pyncm!"));
    proof {
        reveal_strlit("os");
        reveal_strlit("appver");
        reveal_strlit("osver");
        reveal_strlit("deviceId");
        assert("os"@.len() == 2 && "appver"@.len() == 6 && "osver"@.len() == 5 && "deviceId"@.len() == 8);
        assert(m@.dom() =~= set!["os"@, "appver"@, "osver"@, "deviceId"@]);
        assert(m@["os"@]@ == "pc"@);
        assert(m@["appver"@]@ == "8.9.75"@);
        assert(m@["osver"@]@ == Seq::<char>::empty());
        assert(m@["deviceId"@]@ == "pyncm!"@);
    }
    m
}

/// The rate-limit user key of a cookie set: the first 8 characters of
/// `MUSIC_U`, or `anon` without a non-empty `MUSIC_U`.
pub open spec fn user_key(cookies: Map<Seq<char>, String>) -> Seq<char> {
    if cookies.contains_key("MUSIC_U"@) && cookies["MUSIC_U"@]@.len() > 0 {
        let v = cookies["MUSIC_U"@]@;
        v.take(if v.len() < 8 {
            v.len() as int
        } else {
            8
        })
    } else {
        "anon"@
    }
}

/// The user key under which requests of this cookie set are rate limited.
pub fn extract_user_key(cookies: &StringHashMap<String>) -> (r: String)
    ensures
        r@ == user_key(cookies@),
{
    match cookies.get("MUSIC_U") {
        Some(v) => {
            let cs = chars_of(v.as_str());
            if cs.len() == 0 {
                return String::from_str("anon");
            }
            let n = if cs.len() < 8 {
                cs.len()
            } else {
                8
            };
            let r = string_from_range(&cs, 0, n);
            proof {
                assert(cs@.subrange(0, n as int) =~= cs@.take(n as int));
            }
            r
        },
        None => String::from_str("anon"),
    }
}

/// Key of one token bucket: API host and user.
#[derive(Debug, Clone, PartialEq, Eq, Hash)]
pub struct RateLimitKey {
    pub host: String,
    pub user: String,
}

/// Why a token could not be taken.
#[derive(Debug)]
pub enum RateLimitError {
    /// No token within the acquire timeout.
    AcquireTimeout,
}

/// The bucket of an API request with these cookies: the Netease API host
/// and the cookies' user key.
pub fn rate_limit_key(cookies: &StringHashMap<String>) -> (k: RateLimitKey)
    ensures
        k.host@ == "music.163.com"@,
        k.user@ == user_key(cookies@),
{
    RateLimitKey { host: String::from_str("music.163.com"), user: extract_user_key(cookies) }
}

/// A Netease API failure reported in the response body.
#[derive(Debug, Clone, PartialEq, Eq)]
pub enum ApiError {
    /// Risk control (-460 / -461).
    QuotaHit { retry_after: Option<u64> },
    /// The login cookie is no longer valid (-301).
    AuthExpired,
    /// Any other non-200 code, with the response's message.
    NeteaseCode { code: i64, msg: String },
}

/// Classifies a non-200 Netease response code.
pub fn classify_netease_code(code: i64, msg: &str) -> (r: ApiError)
    ensures
        (code == -460 || code == -461) ==> r == (ApiError::QuotaHit { retry_after: None }),
        code == -301 ==> r == ApiError::AuthExpired,
        code != -460 && code != -461 && code != -301 ==> (r matches ApiError::NeteaseCode {
            code: c,
            msg: m,
        } && c == code && m@ == msg@),
{
    if code == -460 || code == -461 {
        ApiError::QuotaHit { retry_after: None }
    } else if code == -301 {
        ApiError::AuthExpired
    } else {
        ApiError::NeteaseCode { code, msg: String::from_str(msg) }
    }
}

/// Checks the `code` field of a Netease response (absent means 200); a
/// non-200 code is classified with the response's `message` (or
/// `unknown error` without one).
pub fn check_response_code(code: Option<i64>, message: Option<&str>) -> (r: Result<(), ApiError>)
    ensures
        (code is None || code == Some(200i64)) ==> r is Ok,
        code matches Some(c) ==> (c != 200 ==> (r matches Err(e) && (c == -460 || c == -461 ==> e
            == (ApiError::QuotaHit { retry_after: None })) && (c == -301 ==> e
            == ApiError::AuthExpired) && (c != -460 && c != -461 && c != -301 ==> (e matches ApiError::NeteaseCode {
            code: cc,
            msg: m,
        } && cc == c && m@ == match message {
            Some(t) => t@,
            None => "unknown error"@,
        })))),
{
    let c = match code {
        Some(c) => c,
        None => 200,
    };
    if c == 200 {
        return Ok(());
    }
    let msg = match message {
        Some(t) => t,
        None => "unknown error",
    };
    Err(classify_netease_code(c, msg))
}

/// Lower-case hexadecimal digit of `d < 16`.
pub open spec fn hex_char(d: nat) -> char {
    if d < 10 {
        crate::text::digit_char(d)
    } else if d == 10 {
        'a'
    } else if d == 11 {
        'b'
    } else if d == 12 {
        'c'
    } else if d == 13 {
        'd'
    } else if d == 14 {
        'e'
    } else {
        'f'
    }
}

/// Two lower-case hex digits per byte.
pub open spec fn hex(data: Seq<u8>) -> Seq<char>
    decreases data.len(),
{
    if data.len() == 0 {
        Seq::empty()
    } else {
        hex(data.drop_last()) + seq![hex_char((data.last() / 16) as nat), hex_char((data.last() % 16) as nat)]
    }
}

/// The lower-case hex digit of `d`.
pub(crate) fn hex_digit(d: u8) -> (c: char)
    requires
        d < 16,
    ensures
        c == hex_char(d as nat),
{
    if d < 10 {
        crate::text::digit(d as u64)
    } else if d == 10 {
        'a'
    } else if d == 11 {
        'b'
    } else if d == 12 {
        'c'
    } else if d == 13 {
        'd'
    } else if d == 14 {
        'e'
    } else {
        'f'
    }
}

/// Lower-case hex text of a byte string.
pub fn hex_digest(data: &[u8]) -> (r: String)
    ensures
        r@ == hex(data@),
{
    let mut out = String::new();
    let mut i: usize = 0;
    while i < data.len()
        invariant
            i <= data.len(),
            out@ == hex(data@.subrange(0, i as int)),
        decreases data.len() - i,
    {
        let b = data[i];
        out.push(hex_digit(b / 16));
        out.push(hex_digit(b % 16));
        i += 1;
        proof {
            assert(data@.subrange(0, i as int).drop_last() =~= data@.subrange(0, i - 1));
            assert(out@ =~= hex(data@.subrange(0, i as int)));
        }
    }
    proof {
        assert(data@.subrange(0, data.len() as int) =~= data@);
    }
    out
}

/// Hex text of the MD5 digest of a string's UTF-8 bytes.
pub fn md5_hex(text: &str) -> (r: String)
    ensures
        r@ == hex(md5_spec(text.spec_bytes())),
{
    let d = md5_digest(text.as_bytes());
    hex_digest(d.as_slice())
}

/// The key of the picture-id obfuscation.
pub open spec fn pic_magic() -> Seq<u8> {
    "3go8&$8*3*3h0k(2)2".spec_bytes()
}

/// `data` XOR-ed byte by byte with `key`, repeating the key.
pub open spec fn xor_cycle(data: Seq<u8>, key: Seq<u8>) -> Seq<u8> {
    Seq::new(data.len(), |i: int| data[i] ^ key[i % key.len() as int])
}

/// `/` as `_` and `+` as `-`.
pub open spec fn url_safe_chars(s: Seq<char>) -> Seq<char> {
    s.map_values(
        |c: char|
            if c == '/' {
                '_'
            } else if c == '+' {
                '-'
            } else {
                c
            },
    )
}

/// The obfuscated path segment of a cover picture id.
pub open spec fn encrypted_pic_id(id: Seq<u8>) -> Seq<char> {
    url_safe_chars(base64_standard_spec(md5_spec(xor_cycle(id, pic_magic()))))
}

/// Obfuscates a picture id the way Netease's image host expects: XOR with a
/// fixed key, MD5, standard base64, then `/` → `_` and `+` → `-`.
pub fn netease_encrypt_id(id_str: &str) -> (r: String)
    ensures
        r@ == encrypted_pic_id(id_str.spec_bytes()),
{
    let magic_str = "3go8&$8*3*3h0k(2)2";
    let magic = magic_str.as_bytes();
    proof {
        reveal_strlit("3go8&$8*3*3h0k(2)2");
        assert(vstd::utf8::is_ascii_chars(magic_str@));
        crate::text::lemma_ascii_bytes(magic_str@);
        assert(magic@.len() == 18);
    }
    let id_bytes = id_str.as_bytes();
    let mut xored: Vec<u8> = Vec::new();
    let mut i: usize = 0;
    while i < id_bytes.len()
        invariant
            i <= id_bytes.len(),
            magic@ == pic_magic(),
            magic@.len() == 18,
            xored@ == xor_cycle(id_bytes@.subrange(0, i as int), magic@),
        decreases id_bytes.len() - i,
    {
        let b = id_bytes[i] ^ magic[i % magic.len()];
        xored.push(b);
        i += 1;
        proof {
            assert(xored@ =~= xor_cycle(id_bytes@.subrange(0, i as int), magic@));
        }
    }
    proof {
        assert(id_bytes@.subrange(0, id_bytes.len() as int) =~= id_bytes@);
    }
    let digest = md5_digest(xored.as_slice());
    let b64 = base64_standard_encode(digest.as_slice());
    let cs = chars_of(b64.as_str());
    let mut out = String::new();
    let mut k: usize = 0;
    while k < cs.len()
        invariant
            k <= cs.len(),
            cs@ == b64@,
            out@ == url_safe_chars(cs@.subrange(0, k as int)),
        decreases cs.len() - k,
    {
        let c = cs[k];
        let d = if c == '/' {
            '_'
        } else if c == '+' {
            '-'
        } else {
            c
        };
        out.push(d);
        k += 1;
        proof {
            assert(out@ =~= url_safe_chars(cs@.subrange(0, k as int)));
        }
    }
    proof {
        assert(cs@.subrange(0, cs.len() as int) =~= cs@);
    }
    out
}


/// The cover URL of a picture id at a square size; empty without an id (or for id 0).
pub open spec fn pic_url(pic_id: Option<i64>, size: u32) -> Seq<char> {
    match pic_id {
        None => Seq::empty(),
        Some(id) => if id == 0 {
            Seq::empty()
        } else {
            "https://p3.music.126.net/"@ + encrypted_pic_id(int_text(id).map_values(|c: char| c as u8)) + "/"@ + int_text(id)
                + ".jpg?param="@ + decimal(size as nat) + "y"@ + decimal(size as nat)
        },
    }
}

/// The cover URL of a picture at `size`×`size` pixels.
pub fn get_pic_url(pic_id: Option<i64>, size: u32) -> (r: String)
    ensures
        r@ == pic_url(pic_id, size),
{
    match pic_id {
        None => String::new(),
        Some(id) => {
            if id == 0 {
                return String::new();
            }
            let mut id_text = String::new();
            push_i64(&mut id_text, id);
            proof {
                let t = int_text(id);
                crate::text::lemma_decimal_digits((-(id as int)) as nat);
                crate::text::lemma_decimal_digits(id as nat);
                assert(vstd::utf8::is_ascii_chars(t)) by {
                    assert forall|i: int| 0 <= i < t.len() implies '\0' <= #[trigger] t[i] <= '\u{7f}' by {
                        if id < 0 {
                            if i > 0 {
                                assert(t[i] == decimal((-(id as int)) as nat)[i - 1]);
                            }
                        }
                    }
                }
                crate::text::lemma_ascii_bytes(t);
            }
            let enc_id = netease_encrypt_id(id_text.as_str());
            let mut out = String::from_str("https://p3.music.126.net/");
            push_str(&mut out, enc_id.as_str());
            push_str(&mut out, "/");
            push_str(&mut out, id_text.as_str());
            push_str(&mut out, ".jpg?param=");
            push_decimal(&mut out, size as u64);
            push_str(&mut out, "y");
            push_decimal(&mut out, size as u64);
            out
        },
    }
}

/// Every non-overlapping occurrence of `pat` in `s`, from the left,
/// replaced by `rep` (as `str::replace` does).
pub open spec fn replace_all(s: Seq<char>, pat: Seq<char>, rep: Seq<char>) -> Seq<char>
    decreases s.len(),
{
    if pat.len() == 0 || s.len() < pat.len() {
        s
    } else if s.take(pat.len() as int) == pat {
        rep + replace_all(s.skip(pat.len() as int), pat, rep)
    } else {
        seq![s[0]] + replace_all(s.drop_first(), pat, rep)
    }
}

/// Appends `cs` with every occurrence of `pat` replaced by `rep`.
fn push_replaced(out: &mut String, cs: &Vec<char>, pat: &Vec<char>, rep: &Vec<char>)
    requires
        pat.len() > 0,
    ensures
        final(out)@ == old(out)@ + replace_all(cs@, pat@, rep@),
{
    let n = cs.len();
    let m = pat.len();
    let mut i: usize = 0;
    proof {
        assert(cs@.subrange(0, n as int) =~= cs@);
    }
    while i < n
        invariant
            n == cs.len(),
            m == pat.len(),
            m > 0,
            i <= n,
            old(out)@ + replace_all(cs@, pat@, rep@) == out@ + replace_all(
                cs@.subrange(i as int, n as int),
                pat@,
                rep@,
            ),
        decreases n - i,
    {
        let ghost rest = cs@.subrange(i as int, n as int);
        let mut matched = false;
        if m <= n - i {
            let mut j: usize = 0;
            let mut same = true;
            while j < m
                invariant
                    i + m <= n == cs.len(),
                    m == pat.len(),
                    j <= m,
                    same == (forall|t: int| 0 <= t < j ==> cs@[i + t] == pat@[t]),
                decreases m - j,
            {
                if cs[i + j] != pat[j] {
                    same = false;
                }
                j += 1;
            }
            matched = same;
            proof {
                if same {
                    assert(rest.take(m as int) =~= pat@);
                } else {
                    let k = choose|t: int| 0 <= t < m && cs@[i + t] != pat@[t];
                    assert(rest.take(m as int)[k] != pat@[k]);
                }
            }
        }
        if matched {
            let mut k: usize = 0;
            let ghost o = out@;
            while k < rep.len()
                invariant
                    k <= rep.len(),
                    out@ == o + rep@.subrange(0, k as int),
                decreases rep.len() - k,
            {
                out.push(rep[k]);
                k += 1;
                proof {
                    assert(out@ =~= o + rep@.subrange(0, k as int));
                }
            }
            proof {
                assert(rep@.subrange(0, rep.len() as int) =~= rep@);
                assert(rest.skip(m as int) =~= cs@.subrange(i + m, n as int));
                assert(o + replace_all(rest, pat@, rep@) =~= out@ + replace_all(
                    cs@.subrange(i + m, n as int),
                    pat@,
                    rep@,
                ));
            }
            i = i + m;
        } else {
            out.push(cs[i]);
            proof {
                assert(rest.drop_first() =~= cs@.subrange(i + 1, n as int));
            }
            i = i + 1;
        }
    }
}

/// The path used for the EAPI digest: the URL's path (the path of
/// `http://localhost` when the URL does not parse), with `/eapi/` replaced
/// by `/api/`.
pub open spec fn eapi_path(url: Seq<char>) -> Seq<char> {
    let p = match url_path_spec(url) {
        Some(p) => p,
        None => match url_path_spec("http://localhost"@) {
            Some(p) => p,
            None => Seq::empty(),
        },
    };
    replace_all(p, "/eapi/"@, "/api/"@)
}

/// The fixed AES key of EAPI requests.
pub open spec fn eapi_key() -> Seq<u8> {
    "e82ckenh8dichen8".spec_bytes()
}

/// The EAPI `params` field: path, JSON payload and their MD5 digest joined
/// by a fixed separator, encrypted with AES-128-ECB under the fixed key and
/// written as lower-case hex.
pub open spec fn eapi_params(url: Seq<char>, json: Seq<char>) -> Seq<char> {
    let path = eapi_path(url);
    let digest = hex(md5_spec(vstd::utf8::encode_utf8("nobody"@ + path + "use"@ + json + "md5forencrypt"@)));
    let params = path + "-36cd479b6b5-"@ + json + "-36cd479b6b5-"@ + digest;
    hex(aes128_ecb_pkcs7_spec(eapi_key(), vstd::utf8::encode_utf8(params)))
}

/// Encrypts an EAPI request body for `url_str` whose JSON payload text is
/// `payload_json`.
pub fn encrypt_params(url_str: &str, payload_json: &str) -> (r: String)
    ensures
        r@ == eapi_params(url_str@, payload_json@),
{
    let raw_path = match url_path(url_str) {
        Some(p) => p,
        None => match url_path("http://localhost") {
            Some(p) => p,
            None => String::new(),
        },
    };
    let pat: Vec<char> = chars_of("/eapi/");
    let rep: Vec<char> = chars_of("/api/");
    proof {
        reveal_strlit("/eapi/");
    }
    let mut path = String::new();
    push_replaced(&mut path, &chars_of(raw_path.as_str()), &pat, &rep);
    proof {
        assert(path@ =~= eapi_path(url_str@));
    }
    let mut digest_src = String::from_str("nobody");
    push_str(&mut digest_src, path.as_str());
    push_str(&mut digest_src, "use");
    push_str(&mut digest_src, payload_json);
    push_str(&mut digest_src, "md5forencrypt");
    let digest = md5_hex(digest_src.as_str());
    let mut params = String::new();
    push_str(&mut params, path.as_str());
    push_str(&mut params, "-36cd479b6b5-");
    push_str(&mut params, payload_json);
    push_str(&mut params, "-36cd479b6b5-");
    push_str(&mut params, digest.as_str());
    let key_str = "e82ckenh8dichen8";
    let key = key_str.as_bytes();
    proof {
        reveal_strlit("e82ckenh8dichen8");
        assert(vstd::utf8::is_ascii_chars(key_str@));
        crate::text::lemma_ascii_bytes(key_str@);
    }
    let encrypted = aes128_ecb_pkcs7_encrypt(key, params.as_str().as_bytes());
    hex_digest(encrypted.as_slice())
}

/// Whether `pat` occurs in `s`.
pub open spec fn has_sub(s: Seq<char>, pat: Seq<char>) -> bool {
    find_sub_from(s, pat, 0) is Some
}

/// The song id written in a Netease link or given as is: for a
/// `music.163.com` link, the text after the first `id=` up to the next `&`;
/// otherwise the whole input; surrounding whitespace removed.
pub open spec fn music_id_text(url: Seq<char>) -> Seq<char> {
    if has_sub(url, "music.163.com"@) {
        match find_sub_from(url, "id="@, 0) {
            Some(idx) => {
                let after = url.subrange(idx + 3, url.len() as int);
                match find_sub_from(after, "&"@, 0) {
                    Some(amp) => trim(after.subrange(0, amp)),
                    None => trim(after),
                }
            },
            None => trim(url),
        }
    } else {
        trim(url)
    }
}

/// `pat` occurs in `s` at `p`.
pub open spec fn occurs_at(s: Seq<char>, pat: Seq<char>, p: int) -> bool {
    0 <= p && p + pat.len() <= s.len() && s.subrange(p, p + pat.len()) == pat
}

/// The search from `i` finds the first occurrence at or after `i`.
proof fn lemma_first_occurrence(s: Seq<char>, pat: Seq<char>, i: int, p: int)
    requires
        0 <= i <= p,
        occurs_at(s, pat, p),
        forall|q: int| i <= q < p ==> !#[trigger] occurs_at(s, pat, q),
    ensures
        find_sub_from(s, pat, i) == Some(p),
    decreases p - i,
{
    if i < p {
        assert(!occurs_at(s, pat, i));
        lemma_first_occurrence(s, pat, i + 1, p);
    }
}

/// The search from `i` finds nothing when `pat` does not occur at or after `i`.
proof fn lemma_no_occurrence(s: Seq<char>, pat: Seq<char>, i: int)
    requires
        0 <= i,
        forall|q: int| i <= q ==> !#[trigger] occurs_at(s, pat, q),
    ensures
        find_sub_from(s, pat, i) is None,
    decreases s.len() + 1 - i,
{
    if i + pat.len() <= s.len() {
        assert(!occurs_at(s, pat, i));
        lemma_no_occurrence(s, pat, i + 1);
    }
}

/// Some occurrence at or after `i` means the search from `i` finds one.
proof fn lemma_some_occurrence(s: Seq<char>, pat: Seq<char>, i: int, d: int)
    requires
        0 <= i <= d,
        occurs_at(s, pat, d),
    ensures
        find_sub_from(s, pat, i) is Some,
    decreases d - i,
{
    if i < d && !occurs_at(s, pat, i) {
        lemma_some_occurrence(s, pat, i + 1, d);
    }
}

/// The id in a Netease link: wherever `music.163.com` occurs (any host such
/// as `y.music.163.com`, with or without a scheme), the id is the text
/// after the first `id=` up to the next `&` (or the end), trimmed.
pub proof fn lemma_music_id_after_first_id(url: Seq<char>, d: int, p: int, a: int)
    requires
        occurs_at(url, "music.163.com"@, d),
        occurs_at(url, "id="@, p),
        forall|q: int| 0 <= q < p ==> !#[trigger] occurs_at(url, "id="@, q),
        p + 3 <= a <= url.len(),
        a < url.len() ==> url[a] == '&',
        forall|k: int| p + 3 <= k < a ==> #[trigger] url[k] != '&',
    ensures
        music_id_text(url) == trim(url.subrange(p + 3, a)),
{
    reveal_strlit("id=");
    reveal_strlit("&");
    lemma_some_occurrence(url, "music.163.com"@, 0, d);
    lemma_first_occurrence(url, "id="@, 0, p);
    let after = url.subrange(p + 3, url.len() as int);
    if a < url.len() {
        assert forall|q: int| 0 <= q < a - (p + 3) implies !#[trigger] occurs_at(after, "&"@, q) by {
            assert(after.subrange(q, q + 1)[0] == url[p + 3 + q]);
        }
        assert(after.subrange(a - (p + 3), a - (p + 3) + 1) =~= "&"@);
        lemma_first_occurrence(after, "&"@, 0, a - (p + 3));
        assert(after.subrange(0, a - (p + 3)) =~= url.subrange(p + 3, a));
    } else {
        assert forall|q: int| 0 <= q implies !#[trigger] occurs_at(after, "&"@, q) by {
            if q + 1 <= after.len() {
                assert(after.subrange(q, q + 1)[0] == url[p + 3 + q]);
            }
        }
        lemma_no_occurrence(after, "&"@, 0);
    }
}

/// Input that is not a `music.163.com` link is taken as the id itself,
/// trimmed.
pub proof fn lemma_music_id_plain(url: Seq<char>)
    requires
        forall|q: int| !#[trigger] occurs_at(url, "music.163.com"@, q),
    ensures
        music_id_text(url) == trim(url),
{
    lemma_no_occurrence(url, "music.163.com"@, 0);
}

/// Whether the input is a `163cn.tv` short link, which must first be
/// resolved through its redirect.
pub fn is_short_link(url: &str) -> (r: bool)
    ensures
        r == has_sub(url@, "163cn.tv"@),
{
    let cs = chars_of(url);
    let pat = chars_of("163cn.tv");
    proof {
        assert(cs@.subrange(0, cs.len() as int) =~= cs@);
    }
    find_sub(&cs, 0, cs.len(), &pat).is_some()
}

/// Extracts the song id from a (resolved) Netease link or a bare id.
pub fn music_id_from_url(url: &str) -> (r: String)
    ensures
        r@ == music_id_text(url@),
{
    let cs = chars_of(url);
    let n = cs.len();
    proof {
        assert(cs@.subrange(0, n as int) =~= cs@);
    }
    let domain = chars_of("music.163.com");
    let id_eq = chars_of("id=");
    let amp = chars_of("&");
    if find_sub(&cs, 0, n, &domain).is_some() {
        match find_sub(&cs, 0, n, &id_eq) {
            Some(idx) => {
                proof {
                    reveal_strlit("id=");
                    crate::text::lemma_find_sub_from(cs@, "id="@, 0);
                }
                let start = idx + 3;
                let after_end = match find_sub(&cs, start, n, &amp) {
                    Some(k) => {
                        proof {
                            crate::text::lemma_find_sub_from(cs@.subrange(start as int, n as int), "&"@, 0);
                        }
                        k
                    },
                    None => n,
                };
                proof {
                    let after = cs@.subrange(start as int, n as int);
                    match find_sub_from(after, "&"@, 0) {
                        Some(a) => {
                            assert(after.subrange(0, a) =~= cs@.subrange(start as int, after_end as int));
                        },
                        None => {
                            assert(after =~= cs@.subrange(start as int, after_end as int));
                        },
                    }
                }
                return trimmed(&cs, start, after_end);
            },
            None => {},
        }
    }
    trimmed(&cs, 0, n)
}

/// `cs[lo..hi]` without surrounding whitespace.
fn trimmed(cs: &Vec<char>, lo: usize, hi: usize) -> (r: String)
    requires
        lo <= hi <= cs.len(),
    ensures
        r@ == trim(cs@.subrange(lo as int, hi as int)),
{
    let a = crate::text::skip_ws_forward(cs, lo, hi);
    let b = crate::text::skip_ws_backward(cs, a, hi);
    proof {
        assert(cs@.subrange(a as int, hi as int) =~= crate::text::trim_start(
            cs@.subrange(lo as int, hi as int),
        ));
        assert(cs@.subrange(a as int, b as int) =~= trim(cs@.subrange(lo as int, hi as int)));
    }
    string_from_range(cs, a, b)
}

/// The stateless HTTP helper of the Netease API client.
pub struct HttpClient;

/// Cookie storage in a plain text file.
pub struct FileCookieStore {
    cookie_file: String,
}

impl FileCookieStore {
    /// A store for the cookie file at `cookie_file` (the file itself is
    /// created by the caller).
    pub fn at_path(cookie_file: String) -> (s: Self)
        ensures
            s.view_path() == cookie_file@,
    {
        FileCookieStore { cookie_file }
    }

    /// Path of the cookie file.
    pub closed spec fn view_path(&self) -> Seq<char> {
        self.cookie_file@
    }

    /// Path of the cookie file.
    pub fn path(&self) -> (r: &str)
        ensures
            r@ == self.view_path(),
    {
        self.cookie_file.as_str()
    }

    /// The cookie text kept in the file: trimmed, both when it is written
    /// and when it is read back.
    pub fn stored_text(content: &str) -> (r: String)
        ensures
            r@ == trim(content@),
    {
        crate::text::trim_str(content)
    }

    /// The error when the cookie file cannot be read (`read`) or written.
    pub fn io_failure(reading: bool, reason: &str) -> (e: AppError)
        ensures
            reading ==> (e matches AppError::Cookie(m) && m@ == "Failed to read cookie file: "@
                + reason@),
            !reading ==> (e matches AppError::Cookie(m) && m@ == "Failed to write cookie file: "@
                + reason@),
    {
        let mut m = String::new();
        if reading {
            push_str(&mut m, "Failed to read cookie file: ");
        } else {
            push_str(&mut m, "Failed to write cookie file: ");
        }
        push_str(&mut m, reason);
        AppError::Cookie(m)
    }
}

/// The bucket of requests made without cookies (song details).
pub fn anonymous_rate_limit_key() -> (k: RateLimitKey)
    ensures
        k.host@ == "music.163.com"@,
        k.user@ == "anon"@,
{
    RateLimitKey { host: String::from_str("music.163.com"), user: String::from_str("anon") }
}

} // verus!
