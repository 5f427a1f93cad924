//! Classification of HTTP failures into retryable, link-level and permanent
//! kinds. `is_retryable` is the single retry decision point and
//! `is_url_refreshable` the single "fetch a fresh link" decision point.

use vstd::prelude::*;
use vstd::utf8::valid_utf8;

use crate::text::{decimal, digit, digit_char, push_decimal, push_str};

verus! {

/// Discrete failure classes of one HTTP exchange.
#[derive(Debug, Clone, PartialEq, Eq)]
pub enum HttpFailureKind {
    /// Transient network-layer failure (connect / request / body / decode).
    Network(String),
    /// Connect or read timeout.
    Timeout,
    /// 5xx server error.
    Server5xx { status: u16 },
    /// Rate limited (429, or Netease codes -460 / -461); the optional hint
    /// is the server's suggested wait in milliseconds.
    Quota { retry_after: Option<u64> },
    /// Credentials no longer valid (401, Netease code -301); never retried.
    AuthExpired,
    /// Any other 4xx: permanent, never retried.
    Permanent4xx { status: u16 },
}

impl HttpFailureKind {
    /// Transient failures are retried; credential and other 4xx failures are not.
    pub open spec fn spec_is_retryable(&self) -> bool {
        match self {
            HttpFailureKind::Network(_) => true,
            HttpFailureKind::Timeout => true,
            HttpFailureKind::Server5xx { .. } => true,
            HttpFailureKind::Quota { .. } => true,
            HttpFailureKind::AuthExpired => false,
            HttpFailureKind::Permanent4xx { .. } => false,
        }
    }

    /// Failures that a fresh download link may cure: expired credentials and
    /// the link-expiry statuses 403 / 404 / 410.
    pub open spec fn spec_is_url_refreshable(&self) -> bool {
        match self {
            HttpFailureKind::AuthExpired => true,
            HttpFailureKind::Permanent4xx { status } => *status == 403 || *status == 404 || *status
                == 410,
            _ => false,
        }
    }

    /// The server's suggested wait, given only for rate limiting.
    pub open spec fn spec_retry_after(&self) -> Option<u64> {
        match self {
            HttpFailureKind::Quota { retry_after } => *retry_after,
            _ => None,
        }
    }

    /// Whether a retry may help.
    pub fn is_retryable(&self) -> (r: bool)
        ensures
            r == self.spec_is_retryable(),
    {
        match self {
            HttpFailureKind::Network(_) => true,
            HttpFailureKind::Timeout => true,
            HttpFailureKind::Server5xx { .. } => true,
            HttpFailureKind::Quota { .. } => true,
            HttpFailureKind::AuthExpired => false,
            HttpFailureKind::Permanent4xx { .. } => false,
        }
    }

    /// Whether the failure is link-level, so that a refreshed link may cure it.
    pub fn is_url_refreshable(&self) -> (r: bool)
        ensures
            r == self.spec_is_url_refreshable(),
    {
        match self {
            HttpFailureKind::AuthExpired => true,
            HttpFailureKind::Permanent4xx { status } => *status == 403 || *status == 404 || *status
                == 410,
            HttpFailureKind::Network(_) => false,
            HttpFailureKind::Timeout => false,
            HttpFailureKind::Server5xx { .. } => false,
            HttpFailureKind::Quota { .. } => false,
        }
    }

    /// Suggested wait in milliseconds (only rate limiting carries one).
    pub fn retry_after(&self) -> (r: Option<u64>)
        ensures
            r == self.spec_retry_after(),
    {
        match self {
            HttpFailureKind::Quota { retry_after } => *retry_after,
            HttpFailureKind::Network(_) => None,
            HttpFailureKind::Timeout => None,
            HttpFailureKind::Server5xx { .. } => None,
            HttpFailureKind::AuthExpired => None,
            HttpFailureKind::Permanent4xx { .. } => None,
        }
    }

    /// Classifies a transport-level failure from its timeout flag and its text:
    /// timeouts are `Timeout`, everything else is a transient `Network` failure.
    pub fn from_reqwest(timed_out: bool, message: String) -> (r: Self)
        ensures
            timed_out ==> r == HttpFailureKind::Timeout,
            !timed_out ==> r == HttpFailureKind::Network(message),
    {
        if timed_out {
            HttpFailureKind::Timeout
        } else {
            HttpFailureKind::Network(message)
        }
    }

    /// Classifies a successful (2xx) response whose body carries a Netease
    /// risk-control code: `"code":-301` is expired credentials, `"code":-460`
    /// and `"code":-461` are rate limiting. A body that is not valid UTF-8 is
    /// read as empty text.
    pub fn from_response_body_200(body_peek: &[u8]) -> (r: Option<Self>)
        ensures
            r == body_200_class(body_peek@),
    {
        if !is_valid_utf8(body_peek) {
            return None;
        }
        let auth = marker_bytes(MARKER_AUTH);
        let q460 = marker_bytes(MARKER_QUOTA_460);
        let q461 = marker_bytes(MARKER_QUOTA_461);
        if contains_bytes(body_peek, &auth) {
            return Some(HttpFailureKind::AuthExpired);
        }
        if contains_bytes(body_peek, &q460) || contains_bytes(body_peek, &q461) {
            return Some(HttpFailureKind::Quota { retry_after: None });
        }
        None
    }

    /// Classifies a response from its status and the first bytes of its body.
    /// Success statuses give `None`; 401 or a body with `"code":-301` is
    /// expired credentials; a body with `"code":-460`/`-461`, or 429, is rate
    /// limiting; other 5xx and 4xx statuses keep their status.
    pub fn from_response(status: u16, body_peek: &[u8]) -> (r: Option<Self>)
        ensures
            r == response_class(status, body_peek@),
    {
        if 200 <= status && status <= 299 {
            return None;
        }
        let valid = is_valid_utf8(body_peek);
        let auth = marker_bytes(MARKER_AUTH);
        let q460 = marker_bytes(MARKER_QUOTA_460);
        let q461 = marker_bytes(MARKER_QUOTA_461);
        if status == 401 || (valid && contains_bytes(body_peek, &auth)) {
            return Some(HttpFailureKind::AuthExpired);
        }
        if valid && (contains_bytes(body_peek, &q460) || contains_bytes(body_peek, &q461)) {
            return Some(HttpFailureKind::Quota { retry_after: None });
        }
        if status == 429 {
            return Some(HttpFailureKind::Quota { retry_after: None });
        }
        if 500 <= status && status <= 599 {
            return Some(HttpFailureKind::Server5xx { status });
        }
        if 400 <= status && status <= 499 {
            return Some(HttpFailureKind::Permanent4xx { status });
        }
        None
    }
}

/// Link-level failures are never retried: retrying with an expired link only
/// repeats the failure, so they are handed to the refresh path instead.
pub proof fn lemma_refreshable_not_retryable(k: HttpFailureKind)
    ensures
        k.spec_is_url_refreshable() ==> !k.spec_is_retryable(),
{
}

/// Selector for one of the three Netease markers.
pub const MARKER_AUTH: u8 = 0;

/// Selector for the `"code":-460` marker.
pub const MARKER_QUOTA_460: u8 = 1;

/// Selector for the `"code":-461` marker.
pub const MARKER_QUOTA_461: u8 = 2;

/// The ASCII bytes of `"code":-3`, `"code":-4` and so on: the shared prefix of the markers.
pub open spec fn code_prefix() -> Seq<u8> {
    // "code":-
    seq![34u8, 99u8, 111u8, 100u8, 101u8, 34u8, 58u8, 45u8]
}

/// The ASCII bytes of the marker selected by `which`:
/// `"code":-301`, `"code":-460` or `"code":-461`.
pub open spec fn marker(which: u8) -> Seq<u8> {
    if which == MARKER_AUTH {
        code_prefix() + seq![51u8, 48u8, 49u8]
    } else if which == MARKER_QUOTA_460 {
        code_prefix() + seq![52u8, 54u8, 48u8]
    } else {
        code_prefix() + seq![52u8, 54u8, 49u8]
    }
}

/// `needle` occurs as a contiguous run of `hay`.
pub open spec fn contains_seq(hay: Seq<u8>, needle: Seq<u8>) -> bool {
    exists|i: int| 0 <= i && i + needle.len() <= hay.len() && #[trigger] hay.subrange(i, i + needle.len()) == needle
}

/// The body of a successful response read as text: invalid UTF-8 reads as no text.
pub open spec fn body_has(body: Seq<u8>, which: u8) -> bool {
    valid_utf8(body) && contains_seq(body, marker(which))
}

/// Class of a successful response body.
pub open spec fn body_200_class(body: Seq<u8>) -> Option<HttpFailureKind> {
    if body_has(body, MARKER_AUTH) {
        Some(HttpFailureKind::AuthExpired)
    } else if body_has(body, MARKER_QUOTA_460) || body_has(body, MARKER_QUOTA_461) {
        Some(HttpFailureKind::Quota { retry_after: None })
    } else {
        None
    }
}

/// Class of a response with the given status and body prefix.
pub open spec fn response_class(status: u16, body: Seq<u8>) -> Option<HttpFailureKind> {
    if 200 <= status <= 299 {
        None
    } else if status == 401 || body_has(body, MARKER_AUTH) {
        Some(HttpFailureKind::AuthExpired)
    } else if body_has(body, MARKER_QUOTA_460) || body_has(body, MARKER_QUOTA_461) {
        Some(HttpFailureKind::Quota { retry_after: None })
    } else if status == 429 {
        Some(HttpFailureKind::Quota { retry_after: None })
    } else if 500 <= status <= 599 {
        Some(HttpFailureKind::Server5xx { status })
    } else if 400 <= status <= 499 {
        Some(HttpFailureKind::Permanent4xx { status })
    } else {
        None
    }
}

/// The bytes of the marker selected by `which`.
fn marker_bytes(which: u8) -> (v: Vec<u8>)
    ensures
        v@ == marker(which),
{
    let mut v: Vec<u8> = vec![34u8, 99u8, 111u8, 100u8, 101u8, 34u8, 58u8, 45u8];
    if which == MARKER_AUTH {
        v.push(51u8);
        v.push(48u8);
        v.push(49u8);
    } else if which == MARKER_QUOTA_460 {
        v.push(52u8);
        v.push(54u8);
        v.push(48u8);
    } else {
        v.push(52u8);
        v.push(54u8);
        v.push(49u8);
    }
    proof {
        assert(v@ =~= marker(which));
    }
    v
}

/// Whether `needle` occurs in `hay`.
pub fn contains_bytes(hay: &[u8], needle: &Vec<u8>) -> (r: bool)
    ensures
        r == contains_seq(hay@, needle@),
{
    let n = needle.len();
    if n == 0 {
        proof {
            assert(hay@.subrange(0, 0 + needle@.len() as int) =~= needle@);
        }
        return true;
    }
    let mut i: usize = 0;
    while i < hay.len() && n <= hay.len() - i
        invariant
            n == needle@.len(),
            n > 0,
            forall|k: int| 0 <= k < i ==> #[trigger] hay@.subrange(k, k + n) != needle@,
        decreases hay.len() - i,
    {
        let mut j: usize = 0;
        let mut same = true;
        while j < n
            invariant
                n == needle@.len(),
                i + n <= hay@.len(),
                hay@.len() == hay.len(),
                j <= n,
                same == (forall|t: int| 0 <= t < j ==> hay@[i + t] == needle@[t]),
            decreases n - j,
        {
            if hay[i + j] != needle[j] {
                same = false;
            }
            j += 1;
        }
        if same {
            proof {
                assert(hay@.subrange(i as int, i + n) =~= needle@);
            }
            return true;
        }
        proof {
            let k = choose|t: int| 0 <= t < n && hay@[i + t] != needle@[t];
            assert(hay@.subrange(i as int, i + n)[k] != needle@[k]);
        }
        i += 1;
    }
    proof {
        assert forall|k: int| 0 <= k && k + n <= hay@.len() implies #[trigger] hay@.subrange(k, k + n)
            != needle@ by {
            if k >= i {
                assert(false);
            }
        }
    }
    false
}

/// Whether the bytes are well-formed UTF-8.
fn is_valid_utf8(bytes: &[u8]) -> (r: bool)
    ensures
        r == valid_utf8(bytes@),
{
    crate::text::utf8_or_error(bytes).is_ok()
}


/// Digits after the decimal point of `rem` thousandths (`1 <= rem < 1000`),
/// without trailing zeros.
pub open spec fn thousandths(rem: nat) -> Seq<char> {
    if rem % 100 == 0 {
        seq![digit_char(rem / 100)]
    } else if rem % 10 == 0 {
        seq![digit_char(rem / 100), digit_char((rem / 10) % 10)]
    } else {
        seq![digit_char(rem / 100), digit_char((rem / 10) % 10), digit_char(rem % 10)]
    }
}

/// Debug text of a duration of `ms` milliseconds: whole seconds with the
/// thousandths after a point (`1.5s`, `2s`), milliseconds below a second
/// (`250ms`), and `0ns` for zero.
pub open spec fn duration_text(ms: nat) -> Seq<char> {
    let secs = ms / 1000;
    let rem = ms % 1000;
    if secs > 0 {
        decimal(secs) + (if rem == 0 {
            Seq::empty()
        } else {
            seq!['.'] + thousandths(rem)
        }) + seq!['s']
    } else if rem > 0 {
        decimal(rem) + seq!['m', 's']
    } else {
        seq!['0', 'n', 's']
    }
}

/// Display text of a failure kind.
pub open spec fn kind_text(k: HttpFailureKind) -> Seq<char> {
    match k {
        HttpFailureKind::Network(m) => "network: "@ + m@,
        HttpFailureKind::Timeout => "timeout"@,
        HttpFailureKind::Server5xx { status } => "server "@ + decimal(status as nat),
        HttpFailureKind::Quota { retry_after } => match retry_after {
            None => "rate limited (retry_after=None)"@,
            Some(ms) => "rate limited (retry_after=Some("@ + duration_text(ms as nat) + "))"@,
        },
        HttpFailureKind::AuthExpired => "auth expired"@,
        HttpFailureKind::Permanent4xx { status } => "permanent "@ + decimal(status as nat),
    }
}

/// Appends the Debug text of a duration of `ms` milliseconds.
pub fn push_duration(out: &mut String, ms: u64)
    ensures
        final(out)@ == old(out)@ + duration_text(ms as nat),
{
    let ghost o = out@;
    let secs = ms / 1000;
    let rem = ms % 1000;
    if secs > 0 {
        push_decimal(out, secs);
        if rem > 0 {
            out.push('.');
            out.push(digit(rem / 100));
            if rem % 100 != 0 {
                out.push(digit((rem / 10) % 10));
                if rem % 10 != 0 {
                    out.push(digit(rem % 10));
                }
            }
        }
        out.push('s');
    } else if rem > 0 {
        push_decimal(out, rem);
        out.push('m');
        out.push('s');
    } else {
        out.push('0');
        out.push('n');
        out.push('s');
    }
    proof {
        assert(out@ =~= o + duration_text(ms as nat));
    }
}

impl HttpFailureKind {
    /// Appends the Display text of the failure kind.
    pub fn push_text(&self, out: &mut String)
        ensures
            final(out)@ == old(out)@ + kind_text(*self),
    {
        let ghost o = out@;
        match self {
            HttpFailureKind::Network(m) => {
                push_str(out, "network: ");
                push_str(out, m.as_str());
            },
            HttpFailureKind::Timeout => {
                push_str(out, "timeout");
            },
            HttpFailureKind::Server5xx { status } => {
                push_str(out, "server ");
                push_decimal(out, *status as u64);
            },
            HttpFailureKind::Quota { retry_after } => match retry_after {
                None => {
                    push_str(out, "rate limited (retry_after=None)");
                },
                Some(ms) => {
                    push_str(out, "rate limited (retry_after=Some(");
                    push_duration(out, *ms);
                    push_str(out, "))");
                },
            },
            HttpFailureKind::AuthExpired => {
                push_str(out, "auth expired");
            },
            HttpFailureKind::Permanent4xx { status } => {
                push_str(out, "permanent ");
                push_decimal(out, *status as u64);
            },
        }
        proof {
            assert(out@ =~= o + kind_text(*self));
        }
    }

    /// The Display text of the failure kind.
    pub fn text(&self) -> (r: String)
        ensures
            r@ == kind_text(*self),
    {
        let mut out = String::new();
        self.push_text(&mut out);
        proof {
            assert(out@ =~= kind_text(*self));
        }
        out
    }
}

/// What `reqwest::StatusCode::canonical_reason` gives for a status code.
pub uninterp spec fn canonical_reason_spec(status: u16) -> Option<Seq<char>>;

/// `reqwest::StatusCode::canonical_reason`: the standard reason phrase of a
/// status code (`Not Found` for 404), if it has one. Codes outside 100..=999
/// are not status codes (`from_u16` refuses them).
#[verifier::external_body]
fn canonical_reason(status: u16) -> (r: Option<String>)
    requires
        100 <= status <= 999,
    ensures
        match canonical_reason_spec(status) {
            Some(t) => r matches Some(s) && s@ == t,
            None => r is None,
        },
{
    match reqwest::StatusCode::from_u16(status) {
        Ok(code) => code.canonical_reason().map(|t| t.to_string()),
        Err(_) => None,
    }
}

/// Display text of a status code: the number, a space and the reason
/// phrase, or `<unknown status code>` where there is none.
pub open spec fn status_line(status: u16) -> Seq<char> {
    decimal(status as nat) + seq![' '] + match canonical_reason_spec(status) {
        Some(t) => t,
        None => "<unknown status code>"@,
    }
}

/// The Display text of a status code (`404 Not Found`).
pub fn status_text(status: u16) -> (r: String)
    requires
        100 <= status <= 999,
    ensures
        r@ == status_line(status),
{
    let mut out = String::new();
    push_decimal(&mut out, status as u64);
    out.push(' ');
    match canonical_reason(status) {
        Some(t) => push_str(&mut out, t.as_str()),
        None => push_str(&mut out, "<unknown status code>"),
    }
    proof {
        assert(out@ =~= status_line(status));
    }
    out
}

/// The failure for an unsuccessful response: its classification by
/// [`HttpFailureKind::from_response`], or else a network failure whose text
/// is `HTTP <status line>` followed by `suffix`.
pub fn response_failure(status: u16, body_peek: &[u8], suffix: &str) -> (r: HttpFailureKind)
    requires
        100 <= status <= 999,
    ensures
        match response_class(status, body_peek@) {
            Some(k) => r == k,
            None => r matches HttpFailureKind::Network(m) && m@ == "HTTP "@ + status_line(status)
                + suffix@,
        },
{
    match HttpFailureKind::from_response(status, body_peek) {
        Some(k) => k,
        None => {
            let mut m = String::new();
            push_str(&mut m, "HTTP ");
            let t = status_text(status);
            push_str(&mut m, t.as_str());
            push_str(&mut m, suffix);
            proof {
                assert(m@ =~= "HTTP "@ + status_line(status) + suffix@);
            }
            HttpFailureKind::Network(m)
        },
    }
}

} // verus!
