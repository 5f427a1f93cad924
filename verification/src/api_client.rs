//! One exchange with the Netease API: the cookies sent, how a response is
//! judged (including risk-control codes hidden in successful answers), and
//! how a failure that survived all retries is reported.

use vstd::prelude::*;
use vstd::utf8::{decode_utf8, valid_utf8};

use crate::http_error::{body_200_class, kind_text, response_class, response_failure, status_line, HttpFailureKind};
use crate::text::{push_str, utf8_error_text, utf8_or_error};

verus! {

/// The default cookies as name/value pairs, in a fixed order.
pub open spec fn default_cookie_pairs() -> Seq<(Seq<char>, Seq<char>)> {
    seq![("os"@, "pc"@), ("appver"@, "8.9.75"@), ("osver"@, Seq::empty()), ("deviceId"@, "pyncm!"@)]
}

/// Whether the user set a cookie of this name.
pub open spec fn user_sets(user: Seq<(String, String)>, name: Seq<char>) -> bool {
    exists|i: int| 0 <= i < user.len() && #[trigger] user[i].0@ == name
}

/// The default cookies the user did not set, in order.
pub open spec fn kept_defaults(d: Seq<(Seq<char>, Seq<char>)>, user: Seq<(String, String)>) -> Seq<(Seq<char>, Seq<char>)>
    decreases d.len(),
{
    if d.len() == 0 {
        Seq::empty()
    } else {
        let prev = kept_defaults(d.drop_last(), user);
        if user_sets(user, d.last().0) {
            prev
        } else {
            prev.push(d.last())
        }
    }
}

/// The texts of name/value pairs.
pub open spec fn pair_texts(v: Seq<(String, String)>) -> Seq<(Seq<char>, Seq<char>)> {
    v.map_values(|p: (String, String)| (p.0@, p.1@))
}

/// The cookies of a request: the defaults the user did not override, then
/// the user's cookies in the order given.
pub open spec fn request_cookie_spec(user: Seq<(String, String)>) -> Seq<(Seq<char>, Seq<char>)> {
    kept_defaults(default_cookie_pairs(), user) + pair_texts(user)
}

fn user_sets_exec(user: &Vec<(String, String)>, name: &str) -> (r: bool)
    ensures
        r == user_sets(user@, name@),
{
    let mut i: usize = 0;
    while i < user.len()
        invariant
            i <= user@.len(),
            forall|k: int| 0 <= k < i ==> user@[k].0@ != name@,
        decreases user.len() - i,
    {
        if crate::text::str_eq(user[i].0.as_str(), name) {
            proof {
                assert(user@[i as int].0@ == name@);
            }
            return true;
        }
        i += 1;
    }
    false
}

/// The cookies of a request with the user's cookies `user`.
pub fn request_cookie_pairs(user: &Vec<(String, String)>) -> (r: Vec<(String, String)>)
    ensures
        pair_texts(r@) == request_cookie_spec(user@),
{
    let mut out: Vec<(String, String)> = Vec::new();
    let names: [&str; 4] = ["os", "appver", "osver", "deviceId"];
    let values: [&str; 4] = ["pc", "8.9.75", "", "pyncm!"];
    let ghost d = default_cookie_pairs();
    proof {
        reveal_strlit("");
        assert(d.len() == 4);
    }
    let mut i: usize = 0;
    while i < 4
        invariant
            i <= 4,
            d == default_cookie_pairs(),
            names@.len() == 4 && values@.len() == 4,
            forall|k: int| 0 <= k < 4 ==> names@[k]@ == d[k].0 && values@[k]@ == d[k].1,
            pair_texts(out@) == kept_defaults(d.subrange(0, i as int), user@),
        decreases 4 - i,
    {
        let ghost before = out@;
        let ghost sub = d.subrange(0, i + 1);
        proof {
            assert(sub.drop_last() =~= d.subrange(0, i as int));
            assert(sub.last() == d[i as int]);
        }
        if !user_sets_exec(user, names[i]) {
            out.push((String::from_str(names[i]), String::from_str(values[i])));
            proof {
                assert(pair_texts(out@) =~= pair_texts(before).push(d[i as int]));
            }
        }
        i += 1;
    }
    proof {
        assert(d.subrange(0, 4) =~= d);
    }
    let ghost kept = out@;
    let mut j: usize = 0;
    while j < user.len()
        invariant
            j <= user@.len(),
            pair_texts(out@) == pair_texts(kept) + pair_texts(user@.subrange(0, j as int)),
            pair_texts(kept) == kept_defaults(default_cookie_pairs(), user@),
        decreases user.len() - j,
    {
        let ghost before = out@;
        let p = (user[j].0.clone(), user[j].1.clone());
        assert(p.0@ == user@[j as int].0@ && p.1@ == user@[j as int].1@);
        out.push(p);
        proof {
            assert(pair_texts(out@) =~= pair_texts(before).push(
                (user@[j as int].0@, user@[j as int].1@),
            ));
            assert(pair_texts(user@.subrange(0, j + 1)) =~= pair_texts(user@.subrange(0, j as int)).push(
                (user@[j as int].0@, user@[j as int].1@),
            ));
            assert(pair_texts(out@) =~= pair_texts(kept) + pair_texts(user@.subrange(0, j + 1)));
        }
        j += 1;
    }
    proof {
        assert(user@.subrange(0, user@.len() as int) =~= user@);
    }
    out
}

/// The `Cookie` header: `name=value` pairs joined by `; `.
pub open spec fn cookie_header_spec(pairs: Seq<(Seq<char>, Seq<char>)>) -> Seq<char>
    decreases pairs.len(),
{
    if pairs.len() == 0 {
        Seq::empty()
    } else {
        let item = pairs.last().0 + seq!['='] + pairs.last().1;
        if pairs.len() == 1 {
            item
        } else {
            cookie_header_spec(pairs.drop_last()) + seq![';', ' '] + item
        }
    }
}

/// The `Cookie` header of these cookies.
pub fn cookie_header(pairs: &Vec<(String, String)>) -> (r: String)
    ensures
        r@ == cookie_header_spec(pair_texts(pairs@)),
{
    let ghost pt = pair_texts(pairs@);
    let mut out = String::new();
    let mut i: usize = 0;
    while i < pairs.len()
        invariant
            i <= pairs@.len(),
            pt == pair_texts(pairs@),
            out@ == cookie_header_spec(pt.subrange(0, i as int)),
        decreases pairs.len() - i,
    {
        if i > 0 {
            out.push(';');
            out.push(' ');
        }
        push_str(&mut out, pairs[i].0.as_str());
        out.push('=');
        push_str(&mut out, pairs[i].1.as_str());
        proof {
            let sub = pt.subrange(0, i + 1);
            assert(sub.drop_last() =~= pt.subrange(0, i as int));
            assert(sub.last() == (pairs@[i as int].0@, pairs@[i as int].1@));
            assert(out@ =~= cookie_header_spec(sub));
        }
        i += 1;
    }
    proof {
        assert(pt.subrange(0, pairs@.len() as int) =~= pt);
    }
    out
}

/// The first `n` bytes (all of them when shorter).
pub open spec fn peek(body: Seq<u8>, n: nat) -> Seq<u8> {
    if body.len() <= n {
        body
    } else {
        body.subrange(0, n as int)
    }
}

fn peek_bytes(body: &[u8], n: usize) -> (r: Vec<u8>)
    ensures
        r@ == peek(body@, n as nat),
{
    let end = if body.len() <= n {
        body.len()
    } else {
        n
    };
    let mut out: Vec<u8> = Vec::new();
    let mut i: usize = 0;
    while i < end
        invariant
            end <= body@.len(),
            i <= end,
            out@ == body@.subrange(0, i as int),
        decreases end - i,
    {
        out.push(body[i]);
        i += 1;
        proof {
            assert(out@ =~= body@.subrange(0, i as int));
        }
    }
    proof {
        assert(body@.subrange(0, body@.len() as int) =~= body@);
    }
    out
}

/// How one API response is judged: a 2xx answer is the body's text unless
/// its first 200 bytes carry a risk-control code or it is not UTF-8; any
/// other status is classified from the status and those bytes, or failed as
/// `HTTP <status line>`.
pub fn exchange_outcome(status: u16, body: &[u8]) -> (r: Result<String, HttpFailureKind>)
    requires
        100 <= status <= 999,
    ensures
        200 <= status <= 299 ==> match body_200_class(peek(body@, 200)) {
            Some(k) => r == Err::<String, HttpFailureKind>(k),
            None => if valid_utf8(body@) {
                (r matches Ok(s) && s@ == decode_utf8(body@))
            } else {
                (r matches Err(HttpFailureKind::Network(m)) && m@ == "body utf8 invalid: "@
                    + utf8_error_text(body@))
            },
        },
        !(200 <= status <= 299) ==> match response_class(status, peek(body@, 200)) {
            Some(k) => r == Err::<String, HttpFailureKind>(k),
            None => (r matches Err(HttpFailureKind::Network(m)) && m@ == "HTTP "@ + status_line(
                status,
            )),
        },
{
    let p = peek_bytes(body, 200);
    if 200 <= status && status <= 299 {
        match HttpFailureKind::from_response_body_200(p.as_slice()) {
            Some(k) => Err(k),
            None => match utf8_or_error(body) {
                Ok(s) => Ok(s),
                Err(e) => {
                    let mut m = String::new();
                    push_str(&mut m, "body utf8 invalid: ");
                    push_str(&mut m, e.as_str());
                    Err(HttpFailureKind::Network(m))
                },
            },
        }
    } else {
        let k = response_failure(status, p.as_slice(), "");
        proof {
            assert(""@.len() == 0) by {
                reveal_strlit("");
            }
            assert(("HTTP "@ + status_line(status)) + ""@ =~= "HTTP "@ + status_line(status));
        }
        Err(k)
    }
}

/// How a failed API request is reported.
#[derive(Debug, Clone, PartialEq, Eq)]
pub enum ClientFailure {
    /// The login cookies are no longer valid.
    AuthExpired,
    /// Rate limited, with the server's suggested wait in whole seconds.
    RateLimited(Option<u64>),
    /// Any other failure, by its message.
    Api(String),
}

/// Reports a failure that survived all retries.
pub fn client_failure(kind: &HttpFailureKind) -> (r: ClientFailure)
    ensures
        *kind is AuthExpired ==> r == ClientFailure::AuthExpired,
        *kind is Quota ==> r == ClientFailure::RateLimited(
            match kind.spec_retry_after() {
                Some(ms) => Some((ms / 1000) as u64),
                None => None,
            },
        ),
        !(*kind is AuthExpired) && !(*kind is Quota) ==> (r matches ClientFailure::Api(m) && m@
            == "HTTP request failed: "@ + kind_text(*kind)),
{
    match kind {
        HttpFailureKind::AuthExpired => ClientFailure::AuthExpired,
        HttpFailureKind::Quota { retry_after } => ClientFailure::RateLimited(
            match retry_after {
                Some(ms) => Some(*ms / 1000),
                None => None,
            },
        ),
        _ => {
            let mut m = String::new();
            push_str(&mut m, "HTTP request failed: ");
            kind.push_text(&mut m);
            ClientFailure::Api(m)
        },
    }
}

} // verus!
