//! Admin session tokens and password hashes.
//!
//! A token is `base64url(expiry) "." base64url(HMAC-SHA256(secret, expiry))`
//! with the expiry as 8 big-endian bytes of Unix seconds; it is valid with
//! the same secret until its expiry, 30 minutes after issue.

use vstd::prelude::*;

use crate::crypto::{
    base64_url_decode, base64_url_decode_spec, base64_url_encode, base64_url_spec, bcrypt_hash,
    bcrypt_prefix, lemma_base64_url_alphabet, lemma_base64_url_round_trip,
    bcrypt_verifies, bcrypt_verify, hmac_sha256, hmac_sha256_spec, hmac_sha256_verify,
    is_url_safe_b64, unix_now_secs,
};
use crate::error::AppError;
use crate::text::{chars_of, push_str, string_from_range, trim, trim_str};

verus! {

/// Lifetime of a token, in seconds.
pub const TOKEN_TTL_SECS: u64 = 1800;

/// bcrypt cost of admin password hashes.
pub const BCRYPT_COST: u32 = 12;

/// The 8 big-endian bytes of `x`.
pub open spec fn be8(x: u64) -> Seq<u8> {
    seq![
        (x >> 56u64) as u8,
        (x >> 48u64) as u8,
        (x >> 40u64) as u8,
        (x >> 32u64) as u8,
        (x >> 24u64) as u8,
        (x >> 16u64) as u8,
        (x >> 8u64) as u8,
        x as u8,
    ]
}

/// The number whose big-endian bytes are `b` (8 bytes).
pub open spec fn from_be8(b: Seq<u8>) -> u64 {
    ((b[0] as u64) << 56u64) | ((b[1] as u64) << 48u64) | ((b[2] as u64) << 40u64) | ((
    b[3] as u64) << 32u64) | ((b[4] as u64) << 24u64) | ((b[5] as u64) << 16u64) | ((
    b[6] as u64) << 8u64) | (b[7] as u64)
}

/// Reading back the big-endian bytes of `x` gives `x`.
pub proof fn lemma_be8_round_trip(x: u64)
    ensures
        from_be8(be8(x)) == x,
{
    let b = be8(x);
    assert(b[0] == (x >> 56u64) as u8 && b[1] == (x >> 48u64) as u8 && b[2] == (x >> 40u64) as u8
        && b[3] == (x >> 32u64) as u8 && b[4] == (x >> 24u64) as u8 && b[5] == (x >> 16u64) as u8
        && b[6] == (x >> 8u64) as u8 && b[7] == x as u8);
    assert((((x >> 56u64) as u8 as u64) << 56u64) | (((x >> 48u64) as u8 as u64) << 48u64) | (((x
        >> 40u64) as u8 as u64) << 40u64) | (((x >> 32u64) as u8 as u64) << 32u64) | (((x
        >> 24u64) as u8 as u64) << 24u64) | (((x >> 16u64) as u8 as u64) << 16u64) | (((x
        >> 8u64) as u8 as u64) << 8u64) | (x as u8 as u64) == x) by (bit_vector);
}

/// The text of the token that expires at `expiry` under `secret`.
pub open spec fn token_text(secret: Seq<u8>, expiry: u64) -> Seq<char> {
    base64_url_spec(be8(expiry)) + seq!['.'] + base64_url_spec(hmac_sha256_spec(secret, be8(expiry)))
}

/// Index of the first `.` in `s`, if any.
pub open spec fn first_dot(s: Seq<char>) -> Option<int> {
    if exists|k: int| 0 <= k < s.len() && s[k] == '.' {
        Some(choose|k: int| 0 <= k < s.len() && s[k] == '.' && forall|j: int| 0 <= j < k ==> s[j] != '.')
    } else {
        None
    }
}

/// Outcome of checking `token` against `secret` at time `now`: the first
/// failed check gives its message.
pub open spec fn token_check(token: Seq<char>, secret: Seq<u8>, now: u64) -> Result<(), Seq<char>> {
    match first_dot(token) {
        None => Err("invalid token format"@),
        Some(k) => match base64_url_decode_spec(token.subrange(0, k)) {
            None => Err("invalid token encoding"@),
            Some(eb) => if eb.len() != 8 {
                Err("invalid token data"@)
            } else {
                match base64_url_decode_spec(token.subrange(k + 1, token.len() as int)) {
                    None => Err("invalid signature encoding"@),
                    Some(sig) => if sig != hmac_sha256_spec(secret, eb) {
                        Err("invalid signature"@)
                    } else if now > from_be8(eb) {
                        Err("token expired"@)
                    } else {
                        Ok(())
                    },
                }
            },
        },
    }
}

/// The result of a check, with static messages viewed as text.
pub open spec fn check_matches(r: Result<(), &'static str>, s: Result<(), Seq<char>>) -> bool {
    match (r, s) {
        (Ok(()), Ok(())) => true,
        (Err(m), Err(t)) => m@ == t,
        _ => false,
    }
}

/// The 8 big-endian bytes of `x`.
fn be_bytes(x: u64) -> (r: Vec<u8>)
    ensures
        r@ == be8(x),
{
    let v: Vec<u8> = vec![
        (x >> 56u64) as u8,
        (x >> 48u64) as u8,
        (x >> 40u64) as u8,
        (x >> 32u64) as u8,
        (x >> 24u64) as u8,
        (x >> 16u64) as u8,
        (x >> 8u64) as u8,
        x as u8,
    ];
    proof {
        assert(v@ =~= be8(x));
    }
    v
}

/// The number whose big-endian bytes are `b`.
fn from_be_bytes(b: &Vec<u8>) -> (r: u64)
    requires
        b@.len() == 8,
    ensures
        r == from_be8(b@),
{
    ((b[0] as u64) << 56u64) | ((b[1] as u64) << 48u64) | ((b[2] as u64) << 40u64) | ((
    b[3] as u64) << 32u64) | ((b[4] as u64) << 24u64) | ((b[5] as u64) << 16u64) | ((
    b[6] as u64) << 8u64) | (b[7] as u64)
}

/// A token made for `expiry` under `secret` passes every check against the
/// same secret up to and including `expiry`, and from the next second on is
/// refused as expired, never for any other reason.
pub proof fn lemma_token_valid_until_expiry(secret: Seq<u8>, expiry: u64, t: u64)
    ensures
        token_check(token_text(secret, expiry), secret, t) == if t > expiry {
            Err::<(), Seq<char>>("token expired"@)
        } else {
            Ok(())
        },
{
    let e = base64_url_spec(be8(expiry));
    let sg = base64_url_spec(hmac_sha256_spec(secret, be8(expiry)));
    let tok = token_text(secret, expiry);
    assert(tok =~= e + seq!['.'] + sg);
    lemma_base64_url_alphabet(be8(expiry));
    let k = e.len() as int;
    assert(tok[k] == '.');
    assert forall|j: int| 0 <= j < k implies tok[j] != '.' by {
        assert(tok[j] == e[j]);
        assert(is_url_safe_b64(e[j]));
    }
    assert(exists|j: int| 0 <= j < tok.len() && tok[j] == '.');
    let fd = choose|j: int| 0 <= j < tok.len() && tok[j] == '.' && forall|i: int| 0 <= i < j ==> tok[i] != '.';
    assert(tok[k] == '.' && forall|i: int| 0 <= i < k ==> tok[i] != '.');
    assert(first_dot(tok) == Some(fd));
    if fd < k {
        assert(tok[fd] == e[fd]);
        assert(is_url_safe_b64(e[fd]));
    }
    assert(fd == k);
    assert(tok.subrange(0, k) =~= e);
    assert(tok.subrange(k + 1, tok.len() as int) =~= sg);
    lemma_be8_round_trip(expiry);
    lemma_base64_url_round_trip(be8(expiry));
    lemma_base64_url_round_trip(hmac_sha256_spec(secret, be8(expiry)));
}

/// A token issued at `now` is accepted up to `TOKEN_TTL_SECS` later and
/// refused as expired afterwards; a token checked at a time after its
/// expiry is never accepted.
pub proof fn lemma_issued_token_lifetime(secret: Seq<u8>, now: u64, t: u64)
    requires
        now <= u64::MAX - TOKEN_TTL_SECS,
    ensures
        t <= now + TOKEN_TTL_SECS ==> token_check(token_text(secret, expiry_after(now)), secret, t)
            == Ok::<(), Seq<char>>(()),
        t > now + TOKEN_TTL_SECS ==> token_check(token_text(secret, expiry_after(now)), secret, t)
            == Err::<(), Seq<char>>("token expired"@),
{
    lemma_token_valid_until_expiry(secret, expiry_after(now), t);
}

/// Issues the token that expires `TOKEN_TTL_SECS` after `now`. With the
/// same secret it validates at every time up to its expiry and is reported
/// expired afterwards.
pub fn issue_token_at(secret: &[u8], now: u64) -> (r: String)
    requires
        now <= u64::MAX - TOKEN_TTL_SECS,
    ensures
        r@ == token_text(secret@, (now + TOKEN_TTL_SECS) as u64),
        forall|t: u64|
            #[trigger] token_check(r@, secret@, t) == if t > now + TOKEN_TTL_SECS {
                Err::<(), Seq<char>>("token expired"@)
            } else {
                Ok(())
            },
{
    let expiry = now + TOKEN_TTL_SECS;
    let expiry_bytes = be_bytes(expiry);
    let sig = hmac_sha256(secret, expiry_bytes.as_slice());
    let expiry_b64 = base64_url_encode(expiry_bytes.as_slice());
    let sig_b64 = base64_url_encode(sig.as_slice());
    let mut out = String::new();
    push_str(&mut out, expiry_b64.as_str());
    out.push('.');
    push_str(&mut out, sig_b64.as_str());
    proof {
        let e = expiry_b64@;
        let s = sig_b64@;
        let tok = out@;
        assert(tok =~= e + seq!['.'] + s);
        lemma_base64_url_alphabet(be8(expiry));
        let k = e.len() as int;
        assert(tok[k] == '.');
        assert forall|j: int| 0 <= j < k implies tok[j] != '.' by {
            assert(tok[j] == e[j]);
            assert(is_url_safe_b64(e[j]));
        }
        assert(exists|j: int| 0 <= j < tok.len() && tok[j] == '.');
        let fd = choose|j: int| 0 <= j < tok.len() && tok[j] == '.' && forall|i: int| 0 <= i < j ==> tok[i] != '.';
        assert(tok[k] == '.' && forall|i: int| 0 <= i < k ==> tok[i] != '.');
        assert(first_dot(tok) == Some(fd));
        if fd < k {
            assert(tok[fd] == e[fd]);
            assert(is_url_safe_b64(e[fd]));
        }
        assert(fd == k);
        assert(tok.subrange(0, k) =~= e);
        assert(tok.subrange(k + 1, tok.len() as int) =~= s);
        lemma_be8_round_trip(expiry);
        lemma_base64_url_round_trip(be8(expiry));
        lemma_base64_url_round_trip(hmac_sha256_spec(secret@, be8(expiry)));
    }
    out
}

/// Checks `token` against `secret` at time `now` (see [`token_check`]).
pub fn validate_token_at(token: &str, secret: &[u8], now: u64) -> (r: Result<(), &'static str>)
    ensures
        check_matches(r, token_check(token@, secret@, now)),
{
    let cs = chars_of(token);
    let mut k: usize = 0;
    while k < cs.len() && cs[k] != '.'
        invariant
            cs@ == token@,
            k <= cs.len(),
            forall|j: int| 0 <= j < k ==> cs@[j] != '.',
        decreases cs.len() - k,
    {
        k += 1;
    }
    if k == cs.len() {
        return Err("invalid token format");
    }
    proof {
        let t = token@;
        assert(exists|j: int| 0 <= j < t.len() && t[j] == '.');
        let fd = choose|j: int| 0 <= j < t.len() && t[j] == '.' && forall|i: int| 0 <= i < j ==> t[i] != '.';
        assert(t[k as int] == '.' && forall|i: int| 0 <= i < k ==> t[i] != '.');
        if fd < k {
            assert(cs@[fd] != '.');
        }
        if fd > k {
            assert(t[k as int] != '.');
        }
        assert(first_dot(t) == Some(k as int));
    }
    let head = string_from_range(&cs, 0, k);
    let tail = string_from_range(&cs, k + 1, cs.len());
    let expiry_bytes = match base64_url_decode(head.as_str()) {
        Some(b) => b,
        None => {
            return Err("invalid token encoding");
        },
    };
    if expiry_bytes.len() != 8 {
        return Err("invalid token data");
    }
    let sig_bytes = match base64_url_decode(tail.as_str()) {
        Some(b) => b,
        None => {
            return Err("invalid signature encoding");
        },
    };
    if !hmac_sha256_verify(secret, expiry_bytes.as_slice(), sig_bytes.as_slice()) {
        return Err("invalid signature");
    }
    let expiry = from_be_bytes(&expiry_bytes);
    if now > expiry {
        return Err("token expired");
    }
    Ok(())
}

/// The expiry of a token issued at `now`.
pub open spec fn expiry_after(now: u64) -> u64 {
    (now + TOKEN_TTL_SECS) as u64
}

/// Issues a token that expires `TOKEN_TTL_SECS` from the current time (an
/// expiry beyond the largest time is clamped to it).
pub fn issue_token(secret: &[u8]) -> (r: String)
    ensures
        exists|now: u64|
            now <= u64::MAX - TOKEN_TTL_SECS && r@ == token_text(secret@, #[trigger] expiry_after(now)),
{
    let now = unix_now_secs();
    let t = if now <= u64::MAX - TOKEN_TTL_SECS {
        now
    } else {
        u64::MAX - TOKEN_TTL_SECS
    };
    let r = issue_token_at(secret, t);
    assert(t <= u64::MAX - TOKEN_TTL_SECS && r@ == token_text(secret@, expiry_after(t)));
    r
}

/// Checks a token against `secret` at the current time.
pub fn validate_token(token: &str, secret: &[u8]) -> (r: Result<(), &'static str>)
    ensures
        exists|now: u64| check_matches(r, #[trigger] token_check(token@, secret@, now)),
{
    let now = unix_now_secs();
    validate_token_at(token, secret, now)
}

/// What a hashing attempt gives the caller: the hash, or an `Api` error
/// carrying bcrypt's message after "Password hashing failed: ".
pub fn password_hash_outcome(res: Result<String, String>) -> (r: Result<String, AppError>)
    ensures
        match res {
            Ok(h) => r matches Ok(x) && x@ == h@,
            Err(msg) => r matches Err(AppError::Api(m)) && m@ == "Password hashing failed: "@ + msg@,
        },
{
    match res {
        Ok(h) => Ok(h),
        Err(msg) => {
            let mut m = String::from_str("Password hashing failed: ");
            push_str(&mut m, msg.as_str());
            Err(AppError::Api(m))
        },
    }
}

/// Hashes an admin password with bcrypt at cost 12: the hash starts with
/// `$2b$12$` and verifies against the same password.
pub fn hash_password(password: &str) -> (r: Result<String, AppError>)
    ensures
        r matches Ok(h) ==> bcrypt_verifies(password@, h@) && h@.len() >= 7 && h@.subrange(0, 7)
            == seq!['$', '2', 'b', '$', '1', '2', '$'],
        r matches Err(e) ==> e matches AppError::Api(m) && "Password hashing failed: "@.is_prefix_of(m@),
{
    let res = bcrypt_hash(password, BCRYPT_COST);
    proof {
        assert(bcrypt_prefix(BCRYPT_COST) =~= seq!['$', '2', 'b', '$', '1', '2', '$']);
        if res is Err {
            let msg = res->Err_0;
            assert(("Password hashing failed: "@ + msg@).subrange(0, "Password hashing failed: "@.len() as int)
                =~= "Password hashing failed: "@);
        }
    }
    password_hash_outcome(res)
}

/// Whether `password` matches the stored bcrypt `hash` (a malformed hash
/// never matches).
pub fn verify_password(password: &str, hash: &str) -> (r: bool)
    ensures
        r == bcrypt_verifies(password@, hash@),
{
    bcrypt_verify(password, hash)
}


/// Length in bytes of the signing secret.
pub const SECRET_LEN: usize = 32;

/// `rand::random::<u8>()`: one random byte. Nothing is stated of its value.
#[verifier::external_body]
fn random_byte() -> (r: u8) {
    rand::random::<u8>()
}

/// `SECRET_LEN` random bytes.
fn random_secret() -> (r: Vec<u8>)
    ensures
        r@.len() == SECRET_LEN,
{
    let mut v: Vec<u8> = Vec::new();
    let mut i: usize = 0;
    while i < SECRET_LEN
        invariant
            i <= SECRET_LEN,
            v@.len() == i,
        decreases SECRET_LEN - i,
    {
        v.push(random_byte());
        i += 1;
    }
    v
}

/// The signing secret: the stored one when it has exactly `SECRET_LEN`
/// (32) bytes, else a new random one, which the caller then stores (the
/// second component says whether it is new).
pub fn load_or_create_secret(stored: Option<Vec<u8>>) -> (r: (Vec<u8>, bool))
    ensures
        r.0@.len() == SECRET_LEN,
        match stored {
            Some(d) => if d@.len() == SECRET_LEN {
                r.0@ == d@ && !r.1
            } else {
                r.1
            },
            None => r.1,
        },
{
    match stored {
        Some(d) => {
            if d.len() == SECRET_LEN {
                return (d, false);
            }
        },
        None => {},
    }
    (random_secret(), true)
}

/// The admin password hash kept in a file: its trimmed content, unless
/// that is empty (or the file could not be read).
pub fn password_hash_from_file(content: Option<String>) -> (r: Option<String>)
    ensures
        match content {
            Some(c) => if trim(c@).len() > 0 {
                r matches Some(h) && h@ == trim(c@)
            } else {
                r is None
            },
            None => r is None,
        },
{
    match content {
        Some(c) => {
            let t = trim_str(c.as_str());
            if t.unicode_len() > 0 {
                Some(t)
            } else {
                None
            }
        },
        None => None,
    }
}

} // verus!
