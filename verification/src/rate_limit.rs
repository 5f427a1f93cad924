//! Token-bucket rate limiting per `(host, user)`: the quota of each bucket
//! and the bounded table of buckets, which evicts the least recently used
//! key when full. Waiting for a token is the caller's (asynchronous) part.

use vstd::prelude::*;

use crate::netease::RateLimitKey;

verus! {

#[verifier::external_type_specification]
#[verifier::external_body]
pub struct ExQuota(governor::Quota);

/// The quota of `rps` tokens a second with bursts of up to `burst`.
pub uninterp spec fn quota_for(rps: u32, burst: u32) -> governor::Quota;

/// `governor::Quota::per_second(rps).allow_burst(burst)`: `rps` tokens a
/// second with bursts of up to `burst`. The quota depends on the two
/// numbers alone; what is inside it is opaque here.
#[verifier::external_body]
fn make_quota(rps: u32, burst: u32) -> (q: governor::Quota)
    requires
        rps >= 1,
        burst >= 1,
    ensures
        q == quota_for(rps, burst),
{
    governor::Quota::per_second(std::num::NonZeroU32::new(rps).unwrap()).allow_burst(
        std::num::NonZeroU32::new(burst).unwrap(),
    )
}

/// The rate and burst actually used: at least one token a second, and a
/// burst no smaller than the rate.
pub open spec fn quota_params(rps_per_user: u32, burst: u32) -> (u32, u32) {
    let rps = if rps_per_user >= 1 {
        rps_per_user
    } else {
        1u32
    };
    (rps, if burst >= rps {
        burst
    } else {
        rps
    })
}

/// The view of a key: its host and user.
pub open spec fn key_view(k: RateLimitKey) -> (Seq<char>, Seq<char>) {
    (k.host@, k.user@)
}

/// `k` is a key of `m` used no later than any other.
pub open spec fn least_recent(m: Map<(Seq<char>, Seq<char>), u128>, k: (Seq<char>, Seq<char>)) -> bool {
    &&& m.contains_key(k)
    &&& forall|u: (Seq<char>, Seq<char>)| #[trigger] m.contains_key(u) ==> m[k] <= m[u]
}

/// The most buckets a table bounded by `max_users` holds: the bound, or one
/// for a bound of 0 (a new key always gets a bucket).
pub open spec fn table_bound(max_users: usize) -> nat {
    if max_users == 0 {
        1
    } else {
        max_users as nat
    }
}

/// The last use of each bucket by `(host, user)`, in nanoseconds of the
/// caller's monotonic clock.
pub type BucketMap = dashmap::DashMap<(String, String), u128>;

/// What a bucket map holds: for each `(host, user)`, its last use.
pub uninterp spec fn bucket_contents(m: BucketMap) -> Map<(Seq<char>, Seq<char>), u128>;

/// `DashMap::new`: an empty map.
#[verifier::external_body]
fn bucket_map_new() -> (r: BucketMap)
    ensures
        bucket_contents(r).dom() == Set::<(Seq<char>, Seq<char>)>::empty(),
{
    BucketMap::new()
}

/// `DashMap::get` on the key `(host, user)`, with the time found copied out.
#[verifier::external_body]
fn bucket_map_get(m: &BucketMap, host: &str, user: &str) -> (r: Option<u128>)
    ensures
        match r {
            Some(t) => bucket_contents(*m).contains_key((host@, user@)) && t == bucket_contents(
                *m,
            )[(host@, user@)],
            None => !bucket_contents(*m).contains_key((host@, user@)),
        },
{
    m.get(&(host.to_string(), user.to_string())).map(|e| *e.value())
}

/// `DashMap::insert`: `(host, user)` was last used at `at`.
#[verifier::external_body]
fn bucket_map_insert(m: &mut BucketMap, host: String, user: String, at: u128)
    ensures
        bucket_contents(*final(m)) == bucket_contents(*old(m)).insert((host@, user@), at),
{
    m.insert((host, user), at);
}

/// `DashMap::remove`: `(host, user)` no longer has a bucket.
#[verifier::external_body]
fn bucket_map_remove(m: &mut BucketMap, host: &str, user: &str)
    ensures
        bucket_contents(*final(m)) == bucket_contents(*old(m)).remove((host@, user@)),
{
    m.remove(&(host.to_string(), user.to_string()));
}

/// `DashMap::len`: the number of buckets.
#[verifier::external_body]
fn bucket_map_len(m: &BucketMap) -> (r: usize)
    ensures
        r == bucket_contents(*m).dom().len(),
{
    m.len()
}

/// `DashMap::iter`, each bucket handed out as its host, user and last use,
/// in the map's own order.
#[verifier::external_body]
fn bucket_map_entries(m: &BucketMap) -> (r: Vec<(String, String, u128)>)
    ensures
        forall|i: int|
            0 <= i < r@.len() ==> bucket_contents(*m).contains_key(
                ((#[trigger] r@[i]).0@, r@[i].1@),
            ) && bucket_contents(*m)[(r@[i].0@, r@[i].1@)] == r@[i].2,
        forall|u: (Seq<char>, Seq<char>)| #[trigger]
            bucket_contents(*m).contains_key(u) ==> exists|i: int|
                0 <= i < r@.len() && (#[trigger] r@[i].0@, r@[i].1@) == u,
{
    m.iter().map(|e| (e.key().0.clone(), e.key().1.clone(), *e.value())).collect()
}

/// The keys that have a bucket, with the time each was last used
/// (nanoseconds of the caller's monotonic clock), bounded in number.
pub struct BucketTable {
    map: BucketMap,
    max_users: usize,
}

/// What taking a token did to the table.
#[derive(Debug)]
pub enum Admission {
    /// The key already had a bucket.
    Existing,
    /// A bucket was made for the key, after evicting the given key's bucket
    /// when the table was full.
    Created { evicted: Option<RateLimitKey> },
}

impl BucketTable {
    /// The table holds finitely many buckets.
    pub closed spec fn wf(&self) -> bool {
        bucket_contents(self.map).dom().finite()
    }

    /// Each key with a bucket and its last use.
    pub closed spec fn spec_last_used(&self) -> Map<(Seq<char>, Seq<char>), u128> {
        bucket_contents(self.map)
    }

    /// The number of buckets.
    pub closed spec fn spec_len(&self) -> nat {
        bucket_contents(self.map).dom().len()
    }

    /// The bound on the number of buckets.
    pub closed spec fn spec_max_users(&self) -> usize {
        self.max_users
    }

    /// An empty table holding up to `max_users` buckets.
    pub fn new(max_users: usize) -> (t: Self)
        ensures
            t.wf(),
            t.spec_last_used() == Map::<(Seq<char>, Seq<char>), u128>::empty(),
            t.spec_len() == 0,
            t.spec_max_users() == max_users,
    {
        let t = BucketTable { map: bucket_map_new(), max_users };
        proof {
            assert(bucket_contents(t.map) =~= Map::<(Seq<char>, Seq<char>), u128>::empty());
        }
        t
    }

    /// The number of buckets.
    pub fn user_count(&self) -> (r: usize)
        ensures
            r == self.spec_len(),
    {
        bucket_map_len(&self.map)
    }

    /// A key used no later than any other.
    fn least_recent_key(&self) -> (r: RateLimitKey)
        requires
            self.wf(),
            self.spec_len() > 0,
        ensures
            least_recent(self.spec_last_used(), key_view(r)),
    {
        let ghost m = bucket_contents(self.map);
        let es = bucket_map_entries(&self.map);
        proof {
            assert(m.dom() != Set::<(Seq<char>, Seq<char>)>::empty());
            let u = m.dom().choose();
            assert(m.contains_key(u));
            let j = choose|j: int| 0 <= j < es@.len() && (#[trigger] es@[j].0@, es@[j].1@) == u;
        }
        let mut best: usize = 0;
        let mut i: usize = 1;
        while i < es.len()
            invariant
                es@.len() > 0,
                1 <= i <= es@.len(),
                best < i,
                forall|k: int| 0 <= k < i ==> es@[best as int].2 <= #[trigger] es@[k].2,
            decreases es.len() - i,
        {
            if es[i].2 < es[best].2 {
                best = i;
            }
            i += 1;
        }
        let r = RateLimitKey {
            host: String::from_str(es[best].0.as_str()),
            user: String::from_str(es[best].1.as_str()),
        };
        proof {
            assert(key_view(r) == (es@[best as int].0@, es@[best as int].1@));
            assert forall|u: (Seq<char>, Seq<char>)| #[trigger] m.contains_key(u) implies m[key_view(r)]
                <= m[u] by {
                let j = choose|j: int| 0 <= j < es@.len() && (#[trigger] es@[j].0@, es@[j].1@) == u;
                assert(es@[best as int].2 <= es@[j].2);
            }
        }
        r
    }

    /// Takes a token for `key` at time `now`: a key with a bucket has its
    /// last use updated; a new key gets a bucket, after the least recently
    /// used bucket is evicted when the table already holds `max_users`.
    pub fn record_use(&mut self, key: &RateLimitKey, now: u128) -> (r: Admission)
        requires
            old(self).wf(),
        ensures
            final(self).wf(),
            final(self).spec_max_users() == old(self).spec_max_users(),
            final(self).spec_last_used().contains_key(key_view(*key)),
            old(self).spec_len() <= table_bound(old(self).spec_max_users()) ==> final(self).spec_len()
                <= table_bound(old(self).spec_max_users()),
            old(self).spec_last_used().contains_key(key_view(*key)) ==> r is Existing
                && final(self).spec_last_used() == old(self).spec_last_used().insert(
                key_view(*key),
                now,
            ) && final(self).spec_len() == old(self).spec_len(),
            !old(self).spec_last_used().contains_key(key_view(*key)) && old(self).spec_len()
                >= old(self).spec_max_users() && old(self).spec_len() > 0 ==> (r matches Admission::Created {
                evicted: Some(e),
            } && least_recent(old(self).spec_last_used(), key_view(e))
                && final(self).spec_last_used() == old(self).spec_last_used().remove(
                key_view(e),
            ).insert(key_view(*key), now) && final(self).spec_len() == old(self).spec_len()),
            !old(self).spec_last_used().contains_key(key_view(*key)) && !(old(self).spec_len()
                >= old(self).spec_max_users() && old(self).spec_len() > 0) ==> r
                == (Admission::Created { evicted: None }) && final(self).spec_last_used()
                == old(self).spec_last_used().insert(key_view(*key), now) && final(self).spec_len()
                == old(self).spec_len() + 1,
    {
        let ghost m0 = bucket_contents(self.map);
        let ghost kv = key_view(*key);
        let host = String::from_str(key.host.as_str());
        let user = String::from_str(key.user.as_str());
        match bucket_map_get(&self.map, key.host.as_str(), key.user.as_str()) {
            Some(_) => {
                bucket_map_insert(&mut self.map, host, user, now);
                proof {
                    assert(bucket_contents(self.map).dom() =~= m0.dom());
                }
                Admission::Existing
            },
            None => {
                let mut evicted: Option<RateLimitKey> = None;
                let n = bucket_map_len(&self.map);
                if n >= self.max_users && n > 0 {
                    let gone = self.least_recent_key();
                    bucket_map_remove(&mut self.map, gone.host.as_str(), gone.user.as_str());
                    proof {
                        assert(bucket_contents(self.map).dom() =~= m0.dom().remove(key_view(gone)));
                        assert(m0.dom().remove(key_view(gone)).len() == m0.dom().len() - 1);
                    }
                    evicted = Some(gone);
                }
                let ghost m1 = bucket_contents(self.map);
                bucket_map_insert(&mut self.map, host, user, now);
                proof {
                    assert(!m1.contains_key(kv));
                    assert(bucket_contents(self.map).dom() =~= m1.dom().insert(kv));
                    if m0.dom().len() == 0 {
                        assert(m0.dom() =~= Set::<(Seq<char>, Seq<char>)>::empty());
                    }
                }
                Admission::Created { evicted }
            },
        }
    }
}

/// Rate limiting of API requests: one token bucket per `(host, user)` with
/// the same quota, in a table of at most `max_users` buckets.
pub struct GovernorLimiter {
    /// The buckets' keys and last uses.
    pub table: BucketTable,
    /// Each bucket's quota.
    pub quota: governor::Quota,
    /// Tokens a second of each bucket, as used.
    pub rps: u32,
    /// Burst size of each bucket, as used.
    pub burst: u32,
    /// How long a request waits for a token before it goes ahead anyway (ms).
    pub acquire_timeout_ms: u64,
}

impl GovernorLimiter {
    /// A limiter with a 300 ms acquire timeout and at most 1024 buckets.
    pub fn new(rps_per_user: u32, burst: u32) -> (l: Self)
        ensures
            l.table.wf(),
            l.table.spec_len() == 0,
            l.table.spec_max_users() == 1024,
            (l.rps, l.burst) == quota_params(rps_per_user, burst),
            l.quota == quota_for(l.rps, l.burst),
            l.acquire_timeout_ms == 300,
    {
        Self::with_options(rps_per_user, burst, 300, 1024)
    }

    /// A limiter whose buckets allow `rps_per_user` tokens a second (at
    /// least 1) with bursts of `burst` (at least the rate).
    pub fn with_options(rps_per_user: u32, burst: u32, acquire_timeout_ms: u64, max_users: usize) -> (l: Self)
        ensures
            l.table.wf(),
            l.table.spec_len() == 0,
            l.table.spec_max_users() == max_users,
            (l.rps, l.burst) == quota_params(rps_per_user, burst),
            l.quota == quota_for(l.rps, l.burst),
            l.acquire_timeout_ms == acquire_timeout_ms,
    {
        let rps = if rps_per_user >= 1 {
            rps_per_user
        } else {
            1
        };
        let b = if burst >= rps {
            burst
        } else {
            rps
        };
        GovernorLimiter {
            table: BucketTable::new(max_users),
            quota: make_quota(rps, b),
            rps,
            burst: b,
            acquire_timeout_ms,
        }
    }

    /// The number of keys that have a bucket.
    pub fn user_count(&self) -> (r: usize)
        ensures
            r == self.table.spec_len(),
    {
        self.table.user_count()
    }
}

} // verus!
