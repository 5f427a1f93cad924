//! In-memory cache of cover images by URL, with an expiry age and a bound
//! on the number of entries: when full, the oldest entry makes room.

use vstd::prelude::*;

use crate::http_error::{response_class, response_failure, status_line, HttpFailureKind};

verus! {

/// Cached images by URL: the image and when it was stored, in nanoseconds of
/// the caller's monotonic clock.
pub type CoverMap = dashmap::DashMap<String, (Vec<u8>, u128)>;

/// What a cover map holds: for each URL, the image and its storage time.
pub uninterp spec fn cover_contents(m: CoverMap) -> Map<Seq<char>, (Seq<u8>, u128)>;

/// `DashMap::new`: an empty map.
#[verifier::external_body]
fn cover_map_new() -> (r: CoverMap)
    ensures
        cover_contents(r).dom() == Set::<Seq<char>>::empty(),
{
    CoverMap::new()
}

/// `DashMap::get`, with the entry found copied out.
#[verifier::external_body]
fn cover_map_get(m: &CoverMap, url: &str) -> (r: Option<(Vec<u8>, u128)>)
    ensures
        match r {
            Some(e) => cover_contents(*m).contains_key(url@) && (e.0@, e.1) == cover_contents(*m)[url@],
            None => !cover_contents(*m).contains_key(url@),
        },
{
    m.get(url).map(|e| (e.value().0.clone(), e.value().1))
}

/// `DashMap::insert`: `url` now maps to the image and time, replacing any
/// earlier entry.
#[verifier::external_body]
fn cover_map_insert(m: &mut CoverMap, url: String, data: Vec<u8>, at: u128)
    ensures
        cover_contents(*final(m)) == cover_contents(*old(m)).insert(url@, (data@, at)),
{
    m.insert(url, (data, at));
}

/// `DashMap::remove`: `url` no longer has an entry.
#[verifier::external_body]
fn cover_map_remove(m: &mut CoverMap, url: &str)
    ensures
        cover_contents(*final(m)) == cover_contents(*old(m)).remove(url@),
{
    m.remove(url);
}

/// `DashMap::len`: the number of entries.
#[verifier::external_body]
fn cover_map_len(m: &CoverMap) -> (r: usize)
    ensures
        r == cover_contents(*m).dom().len(),
{
    m.len()
}

/// `DashMap::iter`, each entry handed out as its URL and storage time, in
/// the map's own order.
#[verifier::external_body]
fn cover_map_ages(m: &CoverMap) -> (r: Vec<(String, u128)>)
    ensures
        forall|i: int|
            0 <= i < r@.len() ==> cover_contents(*m).contains_key((#[trigger] r@[i]).0@)
                && cover_contents(*m)[r@[i].0@].1 == r@[i].1,
        forall|u: Seq<char>| #[trigger]
            cover_contents(*m).contains_key(u) ==> exists|i: int|
                0 <= i < r@.len() && #[trigger] r@[i].0@ == u,
{
    m.iter().map(|e| (e.key().clone(), e.value().1)).collect()
}

/// Cover images by URL.
pub struct CoverCache {
    map: CoverMap,
    ttl_secs: u64,
    max_size: usize,
}

/// Abstract state: the cached image and storage time of each URL, the
/// expiry age in seconds, the entry bound, and the number of entries.
pub struct CoverCacheView {
    pub contents: Map<Seq<char>, (Seq<u8>, u128)>,
    pub ttl_secs: u64,
    pub max_size: usize,
    pub size: nat,
}

impl View for CoverCache {
    type V = CoverCacheView;

    closed spec fn view(&self) -> CoverCacheView {
        CoverCacheView {
            contents: cover_contents(self.map),
            ttl_secs: self.ttl_secs,
            max_size: self.max_size,
            size: cover_contents(self.map).dom().len(),
        }
    }
}

/// Time since `inserted_at`, 0 if the clock reads earlier.
pub open spec fn age(inserted_at: u128, now: u128) -> int {
    if now >= inserted_at {
        now - inserted_at
    } else {
        0
    }
}

/// An entry stored at `inserted_at` is still fresh at `now` when its age is
/// below `ttl_secs` seconds.
pub open spec fn fresh(inserted_at: u128, now: u128, ttl_secs: u64) -> bool {
    age(inserted_at, now) < ttl_secs * 1_000_000_000
}

/// `k` is an entry of `m` stored no later than any other.
pub open spec fn is_oldest(m: Map<Seq<char>, (Seq<u8>, u128)>, k: Seq<char>) -> bool {
    &&& m.contains_key(k)
    &&& forall|u: Seq<char>| #[trigger] m.contains_key(u) ==> m[k].1 <= m[u].1
}

/// Outcome of looking a cover up.
#[derive(Debug)]
pub enum CoverLookup {
    /// The song has no cover URL: nothing to fetch.
    NoUrl,
    /// A fresh cached copy.
    Hit(Vec<u8>),
    /// Not cached, or expired: fetch it.
    Miss,
}

impl CoverCache {
    /// The cache holds finitely many entries.
    pub closed spec fn wf(&self) -> bool {
        cover_contents(self.map).dom().finite()
    }

    /// An empty cache with the given expiry age (seconds) and entry bound.
    pub fn new(ttl_secs: u64, max_size: usize) -> (c: Self)
        ensures
            c.wf(),
            c@.contents == Map::<Seq<char>, (Seq<u8>, u128)>::empty(),
            c@.ttl_secs == ttl_secs,
            c@.max_size == max_size,
            c@.size == 0,
    {
        let c = CoverCache { map: cover_map_new(), ttl_secs, max_size };
        proof {
            assert(cover_contents(c.map) =~= Map::<Seq<char>, (Seq<u8>, u128)>::empty());
        }
        c
    }

    /// Changes the expiry age and the bound; the cached images stay.
    pub fn update_config(&mut self, ttl_secs: u64, max_size: usize)
        requires
            old(self).wf(),
        ensures
            final(self).wf(),
            final(self)@.contents == old(self)@.contents,
            final(self)@.size == old(self)@.size,
            final(self)@.ttl_secs == ttl_secs,
            final(self)@.max_size == max_size,
    {
        self.ttl_secs = ttl_secs;
        self.max_size = max_size;
    }

    /// Looks up the cover at `url` at time `now` (nanoseconds): no URL,
    /// a fresh cached copy, or a miss.
    pub fn lookup(&self, url: &str, now: u128) -> (r: CoverLookup)
        requires
            self.wf(),
        ensures
            url@.len() == 0 ==> r is NoUrl,
            url@.len() > 0 && self@.contents.contains_key(url@) && fresh(
                self@.contents[url@].1,
                now,
                self@.ttl_secs,
            ) ==> (r matches CoverLookup::Hit(d) && d@ == self@.contents[url@].0),
            url@.len() > 0 && !(self@.contents.contains_key(url@) && fresh(
                self@.contents[url@].1,
                now,
                self@.ttl_secs,
            )) ==> r is Miss,
    {
        if url.unicode_len() == 0 {
            return CoverLookup::NoUrl;
        }
        match cover_map_get(&self.map, url) {
            Some((data, inserted_at)) => {
                let elapsed: u128 = if now >= inserted_at {
                    now - inserted_at
                } else {
                    0
                };
                let ttl_ns: u128 = self.ttl_secs as u128 * 1_000_000_000;
                if elapsed < ttl_ns {
                    CoverLookup::Hit(data)
                } else {
                    CoverLookup::Miss
                }
            },
            None => CoverLookup::Miss,
        }
    }

    /// A URL of an entry stored no later than any other.
    fn oldest(&self) -> (r: String)
        requires
            self.wf(),
            self@.size > 0,
        ensures
            is_oldest(self@.contents, r@),
    {
        let ghost m = cover_contents(self.map);
        let ages = cover_map_ages(&self.map);
        proof {
            assert(m.dom() != Set::<Seq<char>>::empty());
            let u = m.dom().choose();
            assert(m.contains_key(u));
            let j = choose|j: int| 0 <= j < ages@.len() && #[trigger] ages@[j].0@ == u;
        }
        let mut best: usize = 0;
        let mut i: usize = 1;
        while i < ages.len()
            invariant
                ages@.len() > 0,
                1 <= i <= ages@.len(),
                best < i,
                forall|k: int| 0 <= k < i ==> ages@[best as int].1 <= #[trigger] ages@[k].1,
            decreases ages.len() - i,
        {
            if ages[i].1 < ages[best].1 {
                best = i;
            }
            i += 1;
        }
        let r = String::from_str(ages[best].0.as_str());
        proof {
            assert forall|u: Seq<char>| #[trigger] m.contains_key(u) implies m[r@].1 <= m[u].1 by {
                let j = choose|j: int| 0 <= j < ages@.len() && #[trigger] ages@[j].0@ == u;
                assert(ages@[j].0@ == u);
            }
        }
        r
    }

    /// Stores a fetched image at time `now`. When the cache already holds
    /// `max_size` entries or more, one oldest entry is evicted first; then the
    /// image replaces any earlier one for the same URL.
    pub fn store(&mut self, url: &str, data: Vec<u8>, now: u128)
        requires
            old(self).wf(),
        ensures
            final(self).wf(),
            final(self)@.ttl_secs == old(self)@.ttl_secs,
            final(self)@.max_size == old(self)@.max_size,
            final(self)@.contents.contains_key(url@),
            final(self)@.contents[url@] == (data@, now),
            old(self)@.size >= old(self)@.max_size && old(self)@.size > 0 ==> exists|k: Seq<char>|
                is_oldest(old(self)@.contents, k) && final(self)@.contents
                    == old(self)@.contents.remove(k).insert(url@, (data@, now)),
            !(old(self)@.size >= old(self)@.max_size && old(self)@.size > 0)
                ==> final(self)@.contents == old(self)@.contents.insert(url@, (data@, now)),
            old(self)@.size >= old(self)@.max_size && old(self)@.size > 0
                ==> final(self)@.size <= old(self)@.size,
            old(self)@.size == 0 ==> final(self)@.size == 1,
            old(self)@.size < old(self)@.max_size ==> final(self)@.size <= old(self)@.max_size,
    {
        let ghost m0 = cover_contents(self.map);
        let n = cover_map_len(&self.map);
        if n >= self.max_size && n > 0 {
            let k = self.oldest();
            cover_map_remove(&mut self.map, k.as_str());
            proof {
                assert(m0.dom().remove(k@).len() == m0.dom().len() - 1);
                assert(cover_contents(self.map).dom() =~= m0.dom().remove(k@));
            }
        }
        let ghost m1 = cover_contents(self.map);
        cover_map_insert(&mut self.map, String::from_str(url), data, now);
        proof {
            assert(cover_contents(self.map).dom() =~= m1.dom().insert(url@));
            if m0.dom().len() == 0 {
                assert(m0.dom() =~= Set::<Seq<char>>::empty());
                assert(m1.dom() =~= Set::<Seq<char>>::empty());
                assert(cover_contents(self.map).dom() =~= set![url@]);
            }
        }
    }
}

/// Judges the response to a cover request: 2xx is a success, anything else
/// is classified, or failed as `HTTP <status line>`.
pub fn cover_response(status: u16) -> (r: Result<(), HttpFailureKind>)
    requires
        100 <= status <= 999,
    ensures
        200 <= status <= 299 ==> r is Ok,
        !(200 <= status <= 299) ==> match response_class(status, Seq::<u8>::empty()) {
            Some(k) => r == Err::<(), HttpFailureKind>(k),
            None => (r matches Err(HttpFailureKind::Network(m)) && m@ == "HTTP "@ + status_line(
                status,
            )),
        },
{
    if 200 <= status && status <= 299 {
        Ok(())
    } else {
        let empty: [u8; 0] = [];
        let k = response_failure(status, &empty, "");
        proof {
            assert(empty@ =~= Seq::<u8>::empty());
            assert(""@.len() == 0) by {
                reveal_strlit("");
            }
            assert(("HTTP "@ + status_line(status)) + ""@ =~= "HTTP "@ + status_line(status));
        }
        Err(k)
    }
}

} // verus!
