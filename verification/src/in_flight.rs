//! The set of `.part` files being written, with a count of the holders of
//! each: disk eviction skips every path in it. Registrations nest (a job and
//! each of its attempts register the same path) and a path leaves the set
//! only when its last holder releases it. Paths are told apart as
//! `Path`'s `==` does, by their components.

use vstd::prelude::*;

use crate::paths::{path_key, path_key_spec};

verus! {

/// Registered paths by key (see `path_key`): the path as first registered
/// and its number of holders.
pub type InFlightMap = dashmap::DashMap<String, (String, usize)>;

/// What an in-flight map holds: for each path key, the path as first
/// registered and its holder count.
pub uninterp spec fn in_flight_contents(m: InFlightMap) -> Map<Seq<char>, (Seq<char>, usize)>;

/// `DashMap::new`: an empty map.
#[verifier::external_body]
fn in_flight_map_new() -> (r: InFlightMap)
    ensures
        in_flight_contents(r).dom() == Set::<Seq<char>>::empty(),
{
    InFlightMap::new()
}

/// `DashMap::get`, with the entry found copied out.
#[verifier::external_body]
fn in_flight_map_get(m: &InFlightMap, key: &str) -> (r: Option<(String, usize)>)
    ensures
        match r {
            Some(e) => in_flight_contents(*m).contains_key(key@) && (e.0@, e.1) == in_flight_contents(
                *m,
            )[key@],
            None => !in_flight_contents(*m).contains_key(key@),
        },
{
    m.get(key).map(|e| (e.value().0.clone(), e.value().1))
}

/// `DashMap::insert`: `key` now maps to the path and count.
#[verifier::external_body]
fn in_flight_map_insert(m: &mut InFlightMap, key: String, shown: String, count: usize)
    ensures
        in_flight_contents(*final(m)) == in_flight_contents(*old(m)).insert(key@, (shown@, count)),
{
    m.insert(key, (shown, count));
}

/// `DashMap::remove`: `key` no longer has an entry.
#[verifier::external_body]
fn in_flight_map_remove(m: &mut InFlightMap, key: &str)
    ensures
        in_flight_contents(*final(m)) == in_flight_contents(*old(m)).remove(key@),
{
    m.remove(key);
}

/// `DashMap::iter`, each entry handed out as its key and registered path,
/// every key once, in the map's own order.
#[verifier::external_body]
fn in_flight_map_entries(m: &InFlightMap) -> (r: Vec<(String, String)>)
    ensures
        forall|i: int|
            0 <= i < r@.len() ==> in_flight_contents(*m).contains_key((#[trigger] r@[i]).0@)
                && in_flight_contents(*m)[r@[i].0@].0 == r@[i].1@,
        forall|u: Seq<char>| #[trigger]
            in_flight_contents(*m).contains_key(u) ==> exists|i: int|
                0 <= i < r@.len() && #[trigger] r@[i].0@ == u,
        forall|i: int, j: int| 0 <= i < j < r@.len() ==> #[trigger] r@[i].0@ != #[trigger] r@[j].0@,
{
    m.iter().map(|e| (e.key().clone(), e.value().0.clone())).collect()
}

/// Registered paths with their holder counts.
pub struct InFlightRegistry {
    map: InFlightMap,
}

/// Proof of one registration of `path`, handed back to release it.
pub struct InFlightGuard {
    path: String,
}

impl InFlightGuard {
    /// The registered path.
    pub closed spec fn spec_path(&self) -> Seq<char> {
        self.path@
    }

    /// The registered path.
    pub fn path(&self) -> (r: &str)
        ensures
            r@ == self.spec_path(),
    {
        self.path.as_str()
    }
}

impl View for InFlightRegistry {
    type V = Map<Seq<char>, nat>;

    /// The key of each registered path with its number of holders (always
    /// at least 1).
    closed spec fn view(&self) -> Map<Seq<char>, nat> {
        in_flight_contents(self.map).map_values(|e: (Seq<char>, usize)| e.1 as nat)
    }
}

/// `m` with one more holder of `p`.
pub open spec fn with_holder(m: Map<Seq<char>, nat>, p: Seq<char>) -> Map<Seq<char>, nat> {
    if m.contains_key(p) {
        m.insert(p, m[p] + 1)
    } else {
        m.insert(p, 1)
    }
}

/// `m` with one holder of `p` fewer; a path with no holder left is removed.
pub open spec fn without_holder(m: Map<Seq<char>, nat>, p: Seq<char>) -> Map<Seq<char>, nat> {
    if m.contains_key(p) && m[p] > 1 {
        m.insert(p, (m[p] - 1) as nat)
    } else {
        m.remove(p)
    }
}

impl InFlightRegistry {
    /// The key of each registered path with the path's text as first
    /// registered.
    pub closed spec fn spec_stored(&self) -> Map<Seq<char>, Seq<char>> {
        in_flight_contents(self.map).map_values(|e: (Seq<char>, usize)| e.0)
    }

    /// Finitely many entries, each with at least one holder and filed under
    /// the key of its registered path.
    pub closed spec fn wf(&self) -> bool {
        let c = in_flight_contents(self.map);
        &&& c.dom().finite()
        &&& forall|k: Seq<char>| #[trigger]
            c.contains_key(k) ==> c[k].1 >= 1 && path_key_spec(c[k].0) == k
    }

    /// An empty registry.
    pub fn new() -> (r: Self)
        ensures
            r.wf(),
            r@ == Map::<Seq<char>, nat>::empty(),
            r.spec_stored() == Map::<Seq<char>, Seq<char>>::empty(),
    {
        let r = InFlightRegistry { map: in_flight_map_new() };
        proof {
            assert(in_flight_contents(r.map) =~= Map::<Seq<char>, (Seq<char>, usize)>::empty());
            assert(r@ =~= Map::<Seq<char>, nat>::empty());
            assert(r.spec_stored() =~= Map::<Seq<char>, Seq<char>>::empty());
        }
        r
    }

    /// How many holders `path` has (0 when it is not registered).
    pub fn count(&self, path: &str) -> (r: usize)
        requires
            self.wf(),
        ensures
            r == if self@.contains_key(path_key_spec(path@)) {
                self@[path_key_spec(path@)]
            } else {
                0
            },
    {
        let key = path_key(path);
        match in_flight_map_get(&self.map, key.as_str()) {
            Some((_, c)) => c,
            None => 0,
        }
    }

    /// Whether `path` is being written.
    pub fn contains(&self, path: &str) -> (r: bool)
        requires
            self.wf(),
        ensures
            r == self@.contains_key(path_key_spec(path@)),
    {
        let key = path_key(path);
        in_flight_map_get(&self.map, key.as_str()).is_some()
    }

    /// Registers one more holder of `path`.
    pub fn register(&mut self, path: &str) -> (g: InFlightGuard)
        requires
            old(self).wf(),
            old(self)@.contains_key(path_key_spec(path@)) ==> old(self)@[path_key_spec(path@)]
                < usize::MAX,
        ensures
            final(self).wf(),
            final(self)@ == with_holder(old(self)@, path_key_spec(path@)),
            final(self).spec_stored() == if old(self)@.contains_key(path_key_spec(path@)) {
                old(self).spec_stored()
            } else {
                old(self).spec_stored().insert(path_key_spec(path@), path@)
            },
            g.spec_path() == path@,
    {
        let ghost s0 = self.spec_stored();
        let ghost c0 = in_flight_contents(self.map);
        let ghost v0 = self@;
        let key = path_key(path);
        match in_flight_map_get(&self.map, key.as_str()) {
            Some((shown, c)) => {
                in_flight_map_insert(&mut self.map, key, shown, c + 1);
            },
            None => {
                in_flight_map_insert(&mut self.map, key, String::from_str(path), 1);
            },
        }
        proof {
            assert(self@ =~= with_holder(v0, path_key_spec(path@)));
            if v0.contains_key(path_key_spec(path@)) {
                assert(self.spec_stored() =~= s0);
            } else {
                assert(self.spec_stored() =~= s0.insert(path_key_spec(path@), path@));
            }
        }
        InFlightGuard { path: String::from_str(path) }
    }

    /// Releases one registration: the path's count drops by one and the path
    /// leaves the set when no holder is left.
    pub fn release(&mut self, guard: InFlightGuard)
        requires
            old(self).wf(),
        ensures
            final(self).wf(),
            final(self)@ == without_holder(old(self)@, path_key_spec(guard.spec_path())),
            final(self).spec_stored() == if final(self)@.contains_key(path_key_spec(guard.spec_path())) {
                old(self).spec_stored()
            } else {
                old(self).spec_stored().remove(path_key_spec(guard.spec_path()))
            },
    {
        let ghost s0 = self.spec_stored();
        let ghost v0 = self@;
        let key = path_key(guard.path.as_str());
        match in_flight_map_get(&self.map, key.as_str()) {
            Some((shown, c)) => {
                if c <= 1 {
                    in_flight_map_remove(&mut self.map, key.as_str());
                } else {
                    in_flight_map_insert(&mut self.map, key, shown, c - 1);
                }
            },
            None => {},
        }
        proof {
            assert(self@ =~= without_holder(v0, path_key_spec(guard.spec_path())));
            if self@.contains_key(path_key_spec(guard.spec_path())) {
                assert(self.spec_stored() =~= s0);
            } else {
                assert(self.spec_stored() =~= s0.remove(path_key_spec(guard.spec_path())));
            }
        }
    }

    /// The registered paths, as first registered, one per key.
    pub fn snapshot(&self) -> (r: Vec<String>)
        requires
            self.wf(),
        ensures
            r@.len() == self@.dom().len(),
            forall|i: int| 0 <= i < r@.len() ==> self@.contains_key(path_key_spec(#[trigger] r@[i]@))
                && self.spec_stored()[path_key_spec(r@[i]@)] == r@[i]@,
            forall|u: Seq<char>| #[trigger]
                self@.contains_key(u) ==> exists|i: int|
                    0 <= i < r@.len() && path_key_spec(#[trigger] r@[i]@) == u,
            forall|i: int, j: int|
                0 <= i < j < r@.len() ==> path_key_spec(#[trigger] r@[i]@) != path_key_spec(
                    #[trigger] r@[j]@,
                ),
    {
        let ghost c = in_flight_contents(self.map);
        let es = in_flight_map_entries(&self.map);
        let mut out: Vec<String> = Vec::new();
        let mut i: usize = 0;
        while i < es.len()
            invariant
                i <= es@.len(),
                out@.len() == i,
                forall|k: int| 0 <= k < i ==> (#[trigger] out@[k])@ == es@[k].1@,
            decreases es.len() - i,
        {
            out.push(String::from_str(es[i].1.as_str()));
            i += 1;
        }
        proof {
            assert(self@.dom() =~= c.dom());
            assert forall|k: int| 0 <= k < out@.len() implies path_key_spec(#[trigger] out@[k]@)
                == es@[k].0@ && self.spec_stored()[es@[k].0@] == out@[k]@ by {
                assert(c.contains_key(es@[k].0@));
            }
            assert forall|u: Seq<char>| #[trigger] self@.contains_key(u) implies exists|k: int|
                0 <= k < out@.len() && path_key_spec(#[trigger] out@[k]@) == u by {
                assert(c.contains_key(u));
                let j = choose|j: int| 0 <= j < es@.len() && #[trigger] es@[j].0@ == u;
                assert(path_key_spec(out@[j]@) == es@[j].0@);
            }
            assert forall|a: int, b: int| 0 <= a < b < out@.len() implies path_key_spec(
                #[trigger] out@[a]@,
            ) != path_key_spec(#[trigger] out@[b]@) by {
                assert(path_key_spec(out@[a]@) == es@[a].0@);
                assert(path_key_spec(out@[b]@) == es@[b].0@);
            }
            let keys = es@.map_values(|e: (String, String)| e.0@);
            assert(keys.no_duplicates()) by {
                assert forall|a: int, b: int|
                    0 <= a < keys.len() && 0 <= b < keys.len() && a != b implies keys[a]
                    != keys[b] by {
                    if a < b {
                        assert(es@[a].0@ != es@[b].0@);
                    } else {
                        assert(es@[b].0@ != es@[a].0@);
                    }
                }
            }
            assert(c.dom() =~= keys.to_set()) by {
                assert forall|u: Seq<char>| c.dom().contains(u) implies keys.to_set().contains(u) by {
                    let j = choose|j: int| 0 <= j < es@.len() && #[trigger] es@[j].0@ == u;
                    assert(keys[j] == u);
                }
                assert forall|u: Seq<char>| keys.to_set().contains(u) implies c.dom().contains(u) by {
                    let j = choose|j: int| 0 <= j < keys.len() && keys[j] == u;
                    assert(c.contains_key(es@[j].0@));
                }
            }
            keys.unique_seq_to_set();
        }
        out
    }
}

/// A registration and its release leave the registry as it was: nested
/// holders of one path count up and down symmetrically.
pub proof fn lemma_register_release(m: Map<Seq<char>, nat>, p: Seq<char>)
    requires
        forall|u: Seq<char>| #[trigger] m.contains_key(u) ==> m[u] >= 1,
    ensures
        without_holder(with_holder(m, p), p) == m,
{
    if m.contains_key(p) {
        assert(without_holder(with_holder(m, p), p) =~= m);
    } else {
        assert(without_holder(with_holder(m, p), p) =~= m);
    }
}

/// A path registered by an outer holder stays registered while inner
/// holders come and go.
pub proof fn lemma_outer_holder_keeps_path(m: Map<Seq<char>, nat>, p: Seq<char>)
    requires
        m.contains_key(p),
        m[p] >= 1,
    ensures
        without_holder(with_holder(m, p), p).contains_key(p),
{
}

/// `m` with `k` more holders of `p`.
pub open spec fn with_holders(m: Map<Seq<char>, nat>, p: Seq<char>, k: nat) -> Map<Seq<char>, nat>
    decreases k,
{
    if k == 0 {
        m
    } else {
        with_holder(with_holders(m, p, (k - 1) as nat), p)
    }
}

/// `k` holders of a path that had none count `k`.
proof fn lemma_with_holders_count(m: Map<Seq<char>, nat>, p: Seq<char>, k: nat)
    requires
        !m.contains_key(p),
        k >= 1,
    ensures
        with_holders(m, p, k) == m.insert(p, k),
    decreases k,
{
    if k == 1 {
        assert(with_holders(m, p, 0) == m);
    } else {
        lemma_with_holders_count(m, p, (k - 1) as nat);
        assert(with_holders(m, p, k) =~= m.insert(p, k));
    }
}

/// Guards nest: with `k` holders of a path registered (a job and its
/// attempts), releasing one keeps the path registered exactly when `k >= 2`,
/// and every other path keeps its registration and count.
pub proof fn lemma_release_one_of_k(m: Map<Seq<char>, nat>, p: Seq<char>, k: nat)
    requires
        !m.contains_key(p),
        k >= 1,
    ensures
        without_holder(with_holders(m, p, k), p).contains_key(p) == (k >= 2),
        k >= 2 ==> without_holder(with_holders(m, p, k), p)[p] == k - 1,
        forall|q: Seq<char>|
            q != p ==> (#[trigger] without_holder(with_holders(m, p, k), p).contains_key(q)
                == m.contains_key(q)),
        forall|q: Seq<char>|
            q != p && m.contains_key(q) ==> #[trigger] without_holder(with_holders(m, p, k), p)[q]
                == m[q],
{
    lemma_with_holders_count(m, p, k);
}

} // verus!
