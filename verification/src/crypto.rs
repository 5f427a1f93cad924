//! Calls into the hashing, encoding and cipher crates, each behind a small
//! function whose contract names what the call returns.

use vstd::prelude::*;

use aes::Aes128;
use base64::engine::general_purpose::{STANDARD, URL_SAFE_NO_PAD};
use base64::Engine;
use cipher::block_padding::Pkcs7;
use cipher::{BlockEncryptMut, KeyInit};
use hmac::{Hmac, Mac};
use md5::{Digest, Md5};
use sha2::Sha256;

verus! {

/// MD5 digest of a byte string (16 bytes).
pub uninterp spec fn md5_spec(data: Seq<u8>) -> Seq<u8>;

/// The base64 digit of a 6-bit value: `A`-`Z`, `a`-`z`, `0`-`9`, then the
/// alphabet's two last characters `c62` and `c63`.
pub open spec fn b64_digit(v: int, c62: char, c63: char) -> char {
    if v < 26 {
        (65 + v) as char
    } else if v < 52 {
        (97 + v - 26) as char
    } else if v < 62 {
        (48 + v - 52) as char
    } else if v == 62 {
        c62
    } else {
        c63
    }
}

/// Base64 of `d` (RFC 4648): each group of three bytes gives four digits,
/// most significant bits first; a final group of one or two bytes gives two
/// or three digits, followed by `=` up to four when `pad` is set.
pub open spec fn b64_encode(d: Seq<u8>, c62: char, c63: char, pad: bool) -> Seq<char>
    decreases d.len(),
{
    if d.len() == 0 {
        Seq::empty()
    } else if d.len() == 1 {
        let n = d[0] as int;
        seq![b64_digit(n / 4, c62, c63), b64_digit((n % 4) * 16, c62, c63)] + if pad {
            seq!['=', '=']
        } else {
            Seq::empty()
        }
    } else if d.len() == 2 {
        let n = d[0] as int * 256 + d[1] as int;
        seq![
            b64_digit(n / 1024, c62, c63),
            b64_digit((n / 16) % 64, c62, c63),
            b64_digit((n % 16) * 4, c62, c63),
        ] + if pad {
            seq!['=']
        } else {
            Seq::empty()
        }
    } else {
        let n = d[0] as int * 65536 + d[1] as int * 256 + d[2] as int;
        seq![
            b64_digit(n / 262144, c62, c63),
            b64_digit((n / 4096) % 64, c62, c63),
            b64_digit((n / 64) % 64, c62, c63),
            b64_digit(n % 64, c62, c63),
        ] + b64_encode(d.subrange(3, d.len() as int), c62, c63, pad)
    }
}

/// Standard base64 (`+`, `/`, `=` padding) of a byte string.
pub open spec fn base64_standard_spec(data: Seq<u8>) -> Seq<char> {
    b64_encode(data, '+', '/', true)
}

/// URL-safe base64 (`-`, `_`) without padding of a byte string.
pub open spec fn base64_url_spec(data: Seq<u8>) -> Seq<char> {
    b64_encode(data, '-', '_', false)
}

/// Distinct 6-bit values have distinct URL-safe digits.
proof fn lemma_url_digit_injective(x: int, y: int)
    requires
        0 <= x < 64,
        0 <= y < 64,
        b64_digit(x, '-', '_') == b64_digit(y, '-', '_'),
    ensures
        x == y,
{
    assert((65 + x) as char as int == 65 + x ==> true);
    if x < 26 && y < 26 {
        assert((65 + x) as char == (65 + y) as char);
    }
}

/// Three bytes are determined by the four 6-bit values of their group.
proof fn lemma_group_determined(a0: int, a1: int, a2: int, b0: int, b1: int, b2: int)
    requires
        0 <= a0 < 256,
        0 <= a1 < 256,
        0 <= a2 < 256,
        0 <= b0 < 256,
        0 <= b1 < 256,
        0 <= b2 < 256,
        a0 * 65536 + a1 * 256 + a2 == b0 * 65536 + b1 * 256 + b2,
    ensures
        a0 == b0 && a1 == b1 && a2 == b2,
{
    assert(a0 == b0 && a1 == b1 && a2 == b2) by (nonlinear_arith)
        requires
            0 <= a0 < 256,
            0 <= a1 < 256,
            0 <= a2 < 256,
            0 <= b0 < 256,
            0 <= b1 < 256,
            0 <= b2 < 256,
            a0 * 65536 + a1 * 256 + a2 == b0 * 65536 + b1 * 256 + b2,
    ;
}

/// A number below 2^24 is determined by its four 6-bit digits.
proof fn lemma_digits_determined(n: int, m: int)
    requires
        0 <= n < 16777216,
        0 <= m < 16777216,
        n / 262144 == m / 262144,
        (n / 4096) % 64 == (m / 4096) % 64,
        (n / 64) % 64 == (m / 64) % 64,
        n % 64 == m % 64,
    ensures
        n == m,
{
    assert(n == (n / 262144) * 262144 + ((n / 4096) % 64) * 4096 + ((n / 64) % 64) * 64 + n % 64)
        by (nonlinear_arith)
        requires
            0 <= n < 16777216,
    ;
    assert(m == (m / 262144) * 262144 + ((m / 4096) % 64) * 4096 + ((m / 64) % 64) * 64 + m % 64)
        by (nonlinear_arith)
        requires
            0 <= m < 16777216,
    ;
}

/// URL-safe encoding is one to one: different bytes never share an encoding.
pub proof fn lemma_base64_url_injective(a: Seq<u8>, b: Seq<u8>)
    requires
        base64_url_spec(a) == base64_url_spec(b),
    ensures
        a == b,
    decreases a.len(),
{
    let ea = b64_encode(a, '-', '_', false);
    let eb = b64_encode(b, '-', '_', false);
    if a.len() >= 3 && b.len() >= 3 {
        let na = a[0] as int * 65536 + a[1] as int * 256 + a[2] as int;
        let nb = b[0] as int * 65536 + b[1] as int * 256 + b[2] as int;
        let ra = a.subrange(3, a.len() as int);
        let rb = b.subrange(3, b.len() as int);
        assert(ea[0] == eb[0] && ea[1] == eb[1] && ea[2] == eb[2] && ea[3] == eb[3]);
        assert(0 <= na < 16777216 && 0 <= nb < 16777216) by (nonlinear_arith)
            requires
                na == a[0] as int * 65536 + a[1] as int * 256 + a[2] as int,
                nb == b[0] as int * 65536 + b[1] as int * 256 + b[2] as int,
                0 <= a[0] < 256, 0 <= a[1] < 256, 0 <= a[2] < 256,
                0 <= b[0] < 256, 0 <= b[1] < 256, 0 <= b[2] < 256,
        ;
        assert(0 <= na / 262144 < 64 && 0 <= nb / 262144 < 64) by (nonlinear_arith)
            requires
                0 <= na < 16777216,
                0 <= nb < 16777216,
        ;
        lemma_url_digit_injective(na / 262144, nb / 262144);
        lemma_url_digit_injective((na / 4096) % 64, (nb / 4096) % 64);
        lemma_url_digit_injective((na / 64) % 64, (nb / 64) % 64);
        lemma_url_digit_injective(na % 64, nb % 64);
        lemma_digits_determined(na, nb);
        lemma_group_determined(a[0] as int, a[1] as int, a[2] as int, b[0] as int, b[1] as int, b[2] as int);
        assert(b64_encode(ra, '-', '_', false) =~= ea.subrange(4, ea.len() as int));
        assert(b64_encode(rb, '-', '_', false) =~= eb.subrange(4, eb.len() as int));
        lemma_base64_url_injective(ra, rb);
        assert(a =~= b) by {
            assert forall|i: int| 0 <= i < a.len() implies a[i] == b[i] by {
                if i >= 3 {
                    assert(a[i] == ra[i - 3] && b[i] == rb[i - 3]);
                }
            }
        }
    } else if a.len() >= 3 {
        assert(ea.len() >= 4);
    } else if b.len() >= 3 {
        assert(eb.len() >= 4);
    } else {
        assert(ea.len() == eb.len());
        if a.len() == 1 {
            assert(b.len() == 1);
            let x = a[0] as int;
            let y = b[0] as int;
            assert(0 <= x / 4 < 64 && 0 <= y / 4 < 64);
            lemma_url_digit_injective(x / 4, y / 4);
            assert(0 <= (x % 4) * 16 < 64 && 0 <= (y % 4) * 16 < 64);
            lemma_url_digit_injective((x % 4) * 16, (y % 4) * 16);
            assert(x == y);
            assert(a =~= b);
        } else if a.len() == 2 {
            assert(b.len() == 2);
            let na = a[0] as int * 256 + a[1] as int;
            let nb = b[0] as int * 256 + b[1] as int;
            assert(0 <= na < 65536 && 0 <= nb < 65536);
            assert(0 <= na / 1024 < 64 && 0 <= nb / 1024 < 64);
            lemma_url_digit_injective(na / 1024, nb / 1024);
            lemma_url_digit_injective((na / 16) % 64, (nb / 16) % 64);
            lemma_url_digit_injective((na % 16) * 4, (nb % 16) * 4);
            assert(na == nb) by (nonlinear_arith)
                requires
                    0 <= na < 65536,
                    0 <= nb < 65536,
                    na / 1024 == nb / 1024,
                    (na / 16) % 64 == (nb / 16) % 64,
                    (na % 16) * 4 == (nb % 16) * 4,
            ;
            assert(a[0] == b[0] && a[1] == b[1]) by (nonlinear_arith)
                requires
                    na == a[0] as int * 256 + a[1] as int,
                    nb == b[0] as int * 256 + b[1] as int,
                    na == nb,
                    0 <= a[0] < 256, 0 <= a[1] < 256, 0 <= b[0] < 256, 0 <= b[1] < 256,
            ;
            assert(a =~= b);
        } else {
            assert(b.len() == 0);
            assert(a =~= b);
        }
    }
}

/// Decoding the URL-safe encoding of `d` gives `d` back.
pub proof fn lemma_base64_url_round_trip(d: Seq<u8>)
    ensures
        base64_url_decode_spec(base64_url_spec(d)) == Some(d),
{
    let t = base64_url_spec(d);
    assert(base64_url_spec(d) == t);
    let c = choose|c: Seq<u8>| #[trigger] base64_url_spec(c) == t;
    lemma_base64_url_injective(c, d);
}

/// The URL-safe encoding uses only the URL-safe alphabet.
pub proof fn lemma_base64_url_alphabet(d: Seq<u8>)
    ensures
        forall|i: int|
            0 <= i < base64_url_spec(d).len() ==> is_url_safe_b64(#[trigger] base64_url_spec(d)[i]),
    decreases d.len(),
{
    let e = base64_url_spec(d);
    assert forall|v: int| 0 <= v < 64 implies is_url_safe_b64(#[trigger] b64_digit(v, '-', '_')) by {
        if v < 26 {
            assert(65 <= 65 + v <= 90);
        } else if v < 52 {
            assert(97 <= 97 + v - 26 <= 122);
        } else if v < 62 {
            assert(48 <= 48 + v - 52 <= 57);
        }
    }
    if d.len() >= 3 {
        let n = d[0] as int * 65536 + d[1] as int * 256 + d[2] as int;
        assert(0 <= n < 16777216) by (nonlinear_arith)
            requires
                n == d[0] as int * 65536 + d[1] as int * 256 + d[2] as int,
                0 <= d[0] < 256, 0 <= d[1] < 256, 0 <= d[2] < 256,
        ;
        assert(0 <= n / 262144 < 64) by (nonlinear_arith)
            requires
                0 <= n < 16777216,
        ;
        let rest = d.subrange(3, d.len() as int);
        lemma_base64_url_alphabet(rest);
        assert forall|i: int| 0 <= i < e.len() implies is_url_safe_b64(#[trigger] e[i]) by {
            if i >= 4 {
                assert(e[i] == base64_url_spec(rest)[i - 4]);
            } else {
                assert(is_url_safe_b64(b64_digit(n / 262144, '-', '_')));
                assert(is_url_safe_b64(b64_digit((n / 4096) % 64, '-', '_')));
                assert(is_url_safe_b64(b64_digit((n / 64) % 64, '-', '_')));
                assert(is_url_safe_b64(b64_digit(n % 64, '-', '_')));
            }
        }
    } else if d.len() == 2 {
        let n = d[0] as int * 256 + d[1] as int;
        assert(0 <= n < 65536);
        assert(is_url_safe_b64(b64_digit(n / 1024, '-', '_')));
        assert(is_url_safe_b64(b64_digit((n / 16) % 64, '-', '_')));
        assert(is_url_safe_b64(b64_digit((n % 16) * 4, '-', '_')));
    } else if d.len() == 1 {
        let x = d[0] as int;
        assert(is_url_safe_b64(b64_digit(x / 4, '-', '_')));
        assert(is_url_safe_b64(b64_digit((x % 4) * 16, '-', '_')));
    }
}

/// Test vectors of RFC 4648 (section 10) and of the URL-safe alphabet hold
/// of the encoding as stated.
pub proof fn lemma_base64_vectors()
    ensures
        base64_standard_spec(seq![102u8, 111u8, 111u8, 98u8]) == seq!['Z', 'm', '9', 'v', 'Y', 'g', '=', '='],
        base64_url_spec(seq![251u8, 255u8]) == seq!['-', '_', '8'],
{
    let d = seq![102u8, 111u8, 111u8, 98u8];
    assert(d.subrange(3, 4) =~= seq![98u8]);
    assert(d.subrange(3, 4).len() == 1);
    reveal_with_fuel(b64_encode, 2);
    assert(b64_encode(d.subrange(3, 4), '+', '/', true) =~= seq!['Y', 'g', '=', '=']);
    assert(base64_standard_spec(d) =~= seq!['Z', 'm', '9', 'v', 'Y', 'g', '=', '=']);
    assert(base64_url_spec(seq![251u8, 255u8]) =~= seq!['-', '_', '8']);
}


/// Decoding of URL-safe unpadded base64 text: the bytes whose encoding it
/// is, and `None` for text that is not the encoding of any bytes (padding,
/// stray characters, a length of 1 mod 4, or nonzero trailing bits).
pub closed spec fn base64_url_decode_spec(text: Seq<char>) -> Option<Seq<u8>> {
    if exists|d: Seq<u8>| #[trigger] base64_url_spec(d) == text {
        Some(choose|d: Seq<u8>| #[trigger] base64_url_spec(d) == text)
    } else {
        None
    }
}

/// HMAC-SHA256 tag of `msg` under `key` (32 bytes).
pub uninterp spec fn hmac_sha256_spec(key: Seq<u8>, msg: Seq<u8>) -> Seq<u8>;

/// AES-128 in ECB mode with PKCS#7 padding.
pub uninterp spec fn aes128_ecb_pkcs7_spec(key: Seq<u8>, data: Seq<u8>) -> Seq<u8>;

/// Path component of a URL; `None` when the text is not a URL.
pub uninterp spec fn url_path_spec(text: Seq<char>) -> Option<Seq<char>>;

/// Whether the password matches the bcrypt hash (a malformed hash never matches).
pub uninterp spec fn bcrypt_verifies(password: Seq<char>, hash: Seq<char>) -> bool;

/// Characters of the URL-safe base64 alphabet.
pub open spec fn is_url_safe_b64(c: char) -> bool {
    ('A' <= c <= 'Z') || ('a' <= c <= 'z') || ('0' <= c <= '9') || c == '-' || c == '_'
}

/// `md5::Md5` (`new`, `update`, `finalize`): the 16-byte MD5 digest of `data`.
#[verifier::external_body]
pub(crate) fn md5_digest(data: &[u8]) -> (r: Vec<u8>)
    ensures
        r@ == md5_spec(data@),
        r@.len() == 16,
{
    let mut h = Md5::new();
    h.update(data);
    h.finalize().to_vec()
}

/// `base64::engine::general_purpose::STANDARD.encode`: standard base64 of `data`.
#[verifier::external_body]
pub(crate) fn base64_standard_encode(data: &[u8]) -> (r: String)
    ensures
        r@ == base64_standard_spec(data@),
{
    STANDARD.encode(data)
}

/// `base64::engine::general_purpose::URL_SAFE_NO_PAD.encode`: URL-safe
/// base64 without padding of `data`.
#[verifier::external_body]
pub(crate) fn base64_url_encode(data: &[u8]) -> (r: String)
    ensures
        r@ == base64_url_spec(data@),
{
    URL_SAFE_NO_PAD.encode(data)
}

/// `base64::engine::general_purpose::URL_SAFE_NO_PAD.decode`: the bytes of
/// URL-safe unpadded base64 text, or `None` on a decoding error.
#[verifier::external_body]
pub(crate) fn base64_url_decode(text: &str) -> (r: Option<Vec<u8>>)
    ensures
        match base64_url_decode_spec(text@) {
            Some(b) => r matches Some(v) && v@ == b,
            None => r is None,
        },
{
    URL_SAFE_NO_PAD.decode(text).ok()
}

/// `hmac::Hmac::<sha2::Sha256>` (`new_from_slice`, `update`, `finalize`):
/// the 32-byte tag of `msg` under `key`. Any key length is accepted.
#[verifier::external_body]
pub(crate) fn hmac_sha256(key: &[u8], msg: &[u8]) -> (r: Vec<u8>)
    ensures
        r@ == hmac_sha256_spec(key@, msg@),
        r@.len() == 32,
{
    let mut mac = <Hmac<Sha256> as Mac>::new_from_slice(key).unwrap();
    mac.update(msg);
    mac.finalize().into_bytes().to_vec()
}

/// `hmac::Mac::verify_slice` on `Hmac::<sha2::Sha256>`: whether `tag` is
/// exactly the tag of `msg` under `key` (a tag of another length is refused).
#[verifier::external_body]
pub(crate) fn hmac_sha256_verify(key: &[u8], msg: &[u8], tag: &[u8]) -> (r: bool)
    ensures
        r == (tag@ == hmac_sha256_spec(key@, msg@)),
{
    let mut mac = <Hmac<Sha256> as Mac>::new_from_slice(key).unwrap();
    mac.update(msg);
    mac.verify_slice(tag).is_ok()
}

/// `ecb::Encryptor::<aes::Aes128>` with `encrypt_padded_vec_mut::<Pkcs7>`:
/// AES-128-ECB encryption of `data` with PKCS#7 padding under a 16-byte key.
/// The ciphertext is `data` padded up to the next whole 16-byte block
/// (a whole extra block when `data` is already aligned).
#[verifier::external_body]
pub(crate) fn aes128_ecb_pkcs7_encrypt(key: &[u8], data: &[u8]) -> (r: Vec<u8>)
    requires
        key@.len() == 16,
    ensures
        r@ == aes128_ecb_pkcs7_spec(key@, data@),
        r@.len() == (data@.len() / 16 + 1) * 16,
{
    let enc = ecb::Encryptor::<Aes128>::new_from_slice(key).unwrap();
    enc.encrypt_padded_vec_mut::<Pkcs7>(data)
}

/// `url::Url::parse` then `Url::path`: the path of the URL, or `None` when
/// the text does not parse.
#[verifier::external_body]
pub(crate) fn url_path(text: &str) -> (r: Option<String>)
    ensures
        match url_path_spec(text@) {
            Some(p) => r matches Some(s) && s@ == p,
            None => r is None,
        },
{
    url::Url::parse(text).ok().map(|u| u.path().to_string())
}

/// The start of a bcrypt hash at `cost`: `$2b$`, the cost as two digits,
/// and `$`.
pub open spec fn bcrypt_prefix(cost: u32) -> Seq<char> {
    seq!['$', '2', 'b', '$', (48 + cost / 10) as char, (48 + cost % 10) as char, '$']
}

/// `bcrypt::hash`: a salted bcrypt hash of `password` at `cost`, or the
/// error's message. A cost outside 4..=31 is refused; a produced hash is
/// written in the `2b` version with the cost, and verifies against the same
/// password. The salt is random (and drawing it may fail), so the rest of
/// the hash, and whether an allowed cost succeeds, is not determined.
#[verifier::external_body]
pub(crate) fn bcrypt_hash(password: &str, cost: u32) -> (r: Result<String, String>)
    ensures
        r matches Ok(h) ==> bcrypt_verifies(password@, h@) && h@.len() >= 7 && h@.subrange(0, 7)
            == bcrypt_prefix(cost),
        !(4 <= cost <= 31) ==> r is Err,
{
    bcrypt::hash(password, cost).map_err(|e| e.to_string())
}

/// `bcrypt::verify`, with an error read as "no match".
#[verifier::external_body]
pub(crate) fn bcrypt_verify(password: &str, hash: &str) -> (r: bool)
    ensures
        r == bcrypt_verifies(password@, hash@),
{
    bcrypt::verify(password, hash).unwrap_or(false)
}

/// `std::time::SystemTime::elapsed` on the Unix epoch: the current time in
/// whole seconds since the epoch (0 for a clock before the epoch). Nothing is
/// promised of the value.
#[verifier::external_body]
pub(crate) fn unix_now_secs() -> (r: u64) {
    std::time::UNIX_EPOCH.elapsed().unwrap_or_default().as_secs()
}

} // verus!
