//! Client profiles, retry policies and the per-failure retry decision.
//!
//! One backoff table serves both links: downloads use its first four steps,
//! API parsing its first two. The decision whether to retry rests on
//! [`HttpFailureKind::is_retryable`] alone.

use vstd::prelude::*;

use crate::http_error::HttpFailureKind;
use crate::runtime_config::RuntimeConfig;

verus! {

/// The two kinds of HTTP client: short API exchanges and long streamed downloads.
#[derive(Debug, Clone, Copy, PartialEq, Eq)]
pub enum ClientProfile {
    /// API requests: expected to answer or fail quickly.
    Parse,
    /// File downloads: long-running streams.
    Download,
}

impl ClientProfile {
    /// Connect timeout of the profile, in seconds.
    pub open spec fn spec_connect_timeout(self) -> u64 {
        match self {
            ClientProfile::Parse => 5,
            ClientProfile::Download => 10,
        }
    }

    /// Read timeout of the profile, in seconds.
    pub open spec fn spec_read_timeout(self) -> u64 {
        match self {
            ClientProfile::Parse => 10,
            ClientProfile::Download => 60,
        }
    }

    /// Connect timeout in seconds: 5 for API requests, 10 for downloads.
    pub fn connect_timeout(self) -> (r: u64)
        ensures
            r == self.spec_connect_timeout(),
    {
        match self {
            ClientProfile::Parse => 5,
            ClientProfile::Download => 10,
        }
    }

    /// Read timeout in seconds: 10 for API requests, 60 for downloads.
    pub fn read_timeout(self) -> (r: u64)
        ensures
            r == self.spec_read_timeout(),
    {
        match self {
            ClientProfile::Parse => 10,
            ClientProfile::Download => 60,
        }
    }
}

/// The two profiles differ in both timeouts.
pub proof fn lemma_profiles_distinct()
    ensures
        ClientProfile::Parse.spec_connect_timeout() != ClientProfile::Download.spec_connect_timeout(),
        ClientProfile::Parse.spec_read_timeout() != ClientProfile::Download.spec_read_timeout(),
{
}

/// The shared backoff table, in milliseconds.
pub open spec fn default_backoff() -> Seq<u64> {
    seq![500u64, 1000u64, 2000u64, 4000u64, 8000u64]
}

/// Retries (not counting the first attempt) of a profile when nothing else is asked.
pub open spec fn baseline(profile: ClientProfile) -> nat {
    match profile {
        ClientProfile::Parse => 2,
        ClientProfile::Download => 4,
    }
}

/// Number of retries for a requested count: 0 asks for the profile's
/// baseline; any other request is clamped to `[1, baseline]`.
pub open spec fn retry_count(max_retries: nat, profile: ClientProfile) -> nat {
    if max_retries == 0 {
        baseline(profile)
    } else if max_retries < baseline(profile) {
        max_retries
    } else {
        baseline(profile)
    }
}

/// Backoff delays between attempts, in milliseconds.
#[derive(Debug, Clone)]
pub struct RetryPolicy {
    /// One delay per retry (the first attempt has none).
    pub backoff: Vec<u64>,
}

impl RetryPolicy {
    /// The policy for a requested retry count and profile: the first
    /// `retry_count` steps of the backoff table.
    pub fn for_profile_with_max_retries(max_retries: usize, profile: ClientProfile) -> (p: Self)
        ensures
            p.backoff@ == default_backoff().take(retry_count(max_retries as nat, profile) as int),
    {
        let base = Self::baseline_retries(profile);
        let len = if max_retries == 0 {
            base
        } else if max_retries < base {
            max_retries
        } else {
            base
        };
        let table: Vec<u64> = vec![500u64, 1000u64, 2000u64, 4000u64, 8000u64];
        let mut backoff: Vec<u64> = Vec::new();
        let mut i: usize = 0;
        while i < len
            invariant
                len <= 4,
                i <= len,
                table@ == default_backoff(),
                backoff@ == default_backoff().take(i as int),
            decreases len - i,
        {
            backoff.push(table[i]);
            i += 1;
            proof {
                assert(backoff@ =~= default_backoff().take(i as int));
            }
        }
        RetryPolicy { backoff }
    }

    /// Retries of the profile's baseline: 2 for API requests, 4 for downloads.
    pub fn baseline_retries(profile: ClientProfile) -> (r: usize)
        ensures
            r == baseline(profile),
    {
        match profile {
            ClientProfile::Parse => 2,
            ClientProfile::Download => 4,
        }
    }

    /// The policy for the admin-configured retry count (at least one retry).
    pub fn from_runtime_config(rc: &RuntimeConfig, profile: ClientProfile) -> (p: Self)
        ensures
            p.backoff@ == default_backoff().take(
                retry_count(if rc.max_retries == 0 { 1 } else { rc.max_retries as nat }, profile) as int,
            ),
    {
        let n = if rc.max_retries == 0 {
            1
        } else {
            rc.max_retries
        };
        Self::for_profile_with_max_retries(n, profile)
    }

    /// The profile's baseline policy.
    pub fn default_for_profile(profile: ClientProfile) -> (p: Self)
        ensures
            p.backoff@ == default_backoff().take(baseline(profile) as int),
    {
        Self::for_profile_with_max_retries(0, profile)
    }

    /// A policy with the given delays, in order.
    pub fn fixed(delays_ms: &[u64]) -> (p: Self)
        ensures
            p.backoff@ == delays_ms@,
    {
        let mut backoff: Vec<u64> = Vec::new();
        let mut i: usize = 0;
        while i < delays_ms.len()
            invariant
                i <= delays_ms.len(),
                backoff@ == delays_ms@.take(i as int),
            decreases delays_ms.len() - i,
        {
            backoff.push(delays_ms[i]);
            i += 1;
            proof {
                assert(backoff@ =~= delays_ms@.take(i as int));
            }
        }
        proof {
            assert(delays_ms@.take(delays_ms@.len() as int) =~= delays_ms@);
        }
        RetryPolicy { backoff }
    }

    /// Attempts allowed: one more than the number of delays.
    pub fn max_attempts(&self) -> (r: usize)
        requires
            self.backoff.len() < usize::MAX,
        ensures
            r == self.backoff.len() + 1,
    {
        self.backoff.len() + 1
    }
}

/// What to do after an attempt failed.
#[derive(Debug, Clone, Copy, PartialEq, Eq)]
pub enum RetryWait {
    /// Wait exactly this long (the server's own hint), then retry.
    ServerHint(u64),
    /// Wait around this long (the caller spreads it by ±50 %), then retry.
    Backoff(u64),
}

/// Decision after attempt number `attempt` (counted from 0) failed with
/// `kind`: `None` gives up with that failure; otherwise the wait before the
/// next attempt.
pub open spec fn spec_next_retry(backoff: Seq<u64>, attempt: nat, kind: HttpFailureKind) -> Option<
    RetryWait,
> {
    if !kind.spec_is_retryable() || attempt + 1 >= backoff.len() + 1 {
        None
    } else {
        match kind.spec_retry_after() {
            Some(ms) => Some(RetryWait::ServerHint(ms)),
            None => Some(RetryWait::Backoff(backoff[attempt as int])),
        }
    }
}

/// The retry decision for one failed attempt: permanent failures and the
/// last allowed attempt give up; otherwise the server's hint is honoured
/// as is, or the backoff step of this attempt is used.
pub fn next_retry(policy: &RetryPolicy, attempt: usize, kind: &HttpFailureKind) -> (r: Option<
    RetryWait,
>)
    ensures
        r == spec_next_retry(policy.backoff@, attempt as nat, *kind),
{
    if !kind.is_retryable() {
        return None;
    }
    if attempt >= policy.backoff.len() {
        return None;
    }
    match kind.retry_after() {
        Some(ms) => Some(RetryWait::ServerHint(ms)),
        None => Some(RetryWait::Backoff(policy.backoff[attempt])),
    }
}

/// A failed attempt is retried only when the failure is retryable and
/// another attempt is still allowed; so a run of failed attempts never
/// exceeds `max_attempts`, and a permanent failure ends it at once.
pub proof fn lemma_retry_bounded(backoff: Seq<u64>, attempt: nat, kind: HttpFailureKind)
    ensures
        spec_next_retry(backoff, attempt, kind) is Some ==> kind.spec_is_retryable() && attempt + 1
            < backoff.len() + 1,
        !kind.spec_is_retryable() ==> spec_next_retry(backoff, attempt, kind) is None,
{
}

/// Asking for zero retries is asking for the baseline.
pub proof fn lemma_zero_is_default(profile: ClientProfile)
    ensures
        default_backoff().take(retry_count(0, profile) as int) == default_backoff().take(
            baseline(profile) as int,
        ),
{
}

/// Every built policy has between one and `baseline` retries, and
/// `max_attempts` is one more than that.
pub proof fn lemma_retry_count_range(max_retries: nat, profile: ClientProfile)
    ensures
        1 <= retry_count(max_retries, profile) <= baseline(profile),
        default_backoff().take(retry_count(max_retries, profile) as int).len() == retry_count(
            max_retries,
            profile,
        ),
{
}

} // verus!
