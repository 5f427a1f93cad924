//! Lifetimes of batch download tasks and of the zip archives they leave in
//! the temporary directory: which finished tasks and which archives are old
//! enough to be cleaned up, and how task ids are made.

use vstd::prelude::*;

use crate::text::{chars_of, string_from_range};

verus! {

/// Directory (under the system temporary directory) holding built archives.
pub const ZIP_DIR_NAME: &'static str = "music_api_zips";

/// Clean-up settings of the task store, in seconds.
#[derive(Debug, Clone, Copy, PartialEq, Eq)]
pub struct TaskStoreSettings {
    /// How long a finished task is kept.
    pub task_ttl_secs: u64,
    /// How old an archive may get before it is removed.
    pub zip_max_age_secs: u64,
    /// Pause between two clean-up passes.
    pub cleanup_interval_secs: u64,
}

impl TaskStoreSettings {
    /// The settings as given.
    pub fn new(task_ttl: u64, zip_max_age: u64, cleanup_interval: u64) -> (s: Self)
        ensures
            s == (TaskStoreSettings {
                task_ttl_secs: task_ttl,
                zip_max_age_secs: zip_max_age,
                cleanup_interval_secs: cleanup_interval,
            }),
    {
        TaskStoreSettings {
            task_ttl_secs: task_ttl,
            zip_max_age_secs: zip_max_age,
            cleanup_interval_secs: cleanup_interval,
        }
    }

    /// Replaces all three settings.
    pub fn update_config(&mut self, ttl: u64, zip_age: u64, interval: u64)
        ensures
            *final(self) == (TaskStoreSettings {
                task_ttl_secs: ttl,
                zip_max_age_secs: zip_age,
                cleanup_interval_secs: interval,
            }),
    {
        self.task_ttl_secs = ttl;
        self.zip_max_age_secs = zip_age;
        self.cleanup_interval_secs = interval;
    }

    /// A task is removed once it has finished and is older than the ttl.
    pub fn task_expired(&self, terminal: bool, created_at: u64, now: u64) -> (r: bool)
        requires
            created_at <= now,
        ensures
            r == (terminal && now - created_at > self.task_ttl_secs),
    {
        terminal && now - created_at > self.task_ttl_secs
    }

    /// An archive is removed once it is older than the maximum age (an age
    /// that cannot be read counts as 0).
    pub fn zip_expired(&self, age_secs: u64) -> (r: bool)
        ensures
            r == (age_secs > self.zip_max_age_secs),
    {
        age_secs > self.zip_max_age_secs
    }
}

/// A lowercase hexadecimal digit.
pub open spec fn is_lower_hex(c: char) -> bool {
    ('0' <= c <= '9') || ('a' <= c <= 'f')
}

/// Positions of the hyphens in a hyphenated UUID.
pub open spec fn uuid_hyphen_at(i: int) -> bool {
    i == 8 || i == 13 || i == 18 || i == 23
}

/// `uuid::Uuid::new_v4().to_string()`: a random version-4 UUID in its
/// hyphenated lowercase form: 36 characters, hyphens at 8, 13, 18 and 23,
/// lowercase hex digits elsewhere, the version digit `4` at 14. The digits
/// themselves are random and not stated.
#[verifier::external_body]
fn uuid_v4_text() -> (r: String)
    ensures
        r@.len() == 36,
        forall|i: int| 0 <= i < 36 ==> (if uuid_hyphen_at(i) {
            #[trigger] r@[i] == '-'
        } else {
            is_lower_hex(r@[i])
        }),
        r@[14] == '4',
{
    uuid::Uuid::new_v4().to_string()
}

/// The id of a new task: the first 12 characters of a random UUID, that is
/// 8 lowercase hex digits, a hyphen and 3 more lowercase hex digits.
pub fn new_task_id() -> (r: String)
    ensures
        r@.len() == 12,
        r@[8] == '-',
        forall|i: int| 0 <= i < 12 && i != 8 ==> is_lower_hex(#[trigger] r@[i]),
{
    let u = uuid_v4_text();
    let cs = chars_of(u.as_str());
    let r = string_from_range(&cs, 0, 12);
    proof {
        assert(u@[8] == '-');
        assert forall|i: int| 0 <= i < 12 && i != 8 implies is_lower_hex(#[trigger] r@[i]) by {
            assert(r@[i] == u@[i]);
            assert(!uuid_hyphen_at(i));
            assert(is_lower_hex(u@[i]));
        }
    }
    r
}

/// The text of an optional string.
pub open spec fn opt_text(o: Option<String>) -> Option<Seq<char>> {
    match o {
        Some(s) => Some(s@),
        None => None,
    }
}

/// What the task table keeps of each task, by id: whether it has reached a
/// final stage, when it was created (seconds since the epoch), and the
/// archive built for it, if any.
pub type TaskMap = dashmap::DashMap<String, (bool, u64, Option<String>)>;

/// What a task map holds: for each id, the task's record as plain values.
pub uninterp spec fn task_contents(m: TaskMap) -> Map<Seq<char>, (bool, u64, Option<Seq<char>>)>;

/// `DashMap::new`: an empty map.
#[verifier::external_body]
fn task_map_new() -> (r: TaskMap)
    ensures
        task_contents(r).dom() == Set::<Seq<char>>::empty(),
{
    TaskMap::new()
}

/// `DashMap::get`, with the record found copied out.
#[verifier::external_body]
fn task_map_get(m: &TaskMap, id: &str) -> (r: Option<(bool, u64, Option<String>)>)
    ensures
        match r {
            Some(e) => task_contents(*m).contains_key(id@) && (e.0, e.1, opt_text(e.2))
                == task_contents(*m)[id@],
            None => !task_contents(*m).contains_key(id@),
        },
{
    m.get(id).map(|e| e.value().clone())
}

/// `DashMap::insert`: `id` now maps to the record.
#[verifier::external_body]
fn task_map_insert(m: &mut TaskMap, id: String, terminal: bool, created_at: u64, zip_path: Option<String>)
    ensures
        task_contents(*final(m)) == task_contents(*old(m)).insert(
            id@,
            (terminal, created_at, opt_text(zip_path)),
        ),
{
    m.insert(id, (terminal, created_at, zip_path));
}

/// `DashMap::remove`: `id` no longer has a record; the removed one is
/// handed back.
#[verifier::external_body]
fn task_map_remove(m: &mut TaskMap, id: &str) -> (r: Option<(bool, u64, Option<String>)>)
    ensures
        task_contents(*final(m)) == task_contents(*old(m)).remove(id@),
        match r {
            Some(e) => task_contents(*old(m)).contains_key(id@) && (e.0, e.1, opt_text(e.2))
                == task_contents(*old(m))[id@],
            None => !task_contents(*old(m)).contains_key(id@),
        },
{
    m.remove(id).map(|(_, v)| v)
}

/// `DashMap::iter`, each task handed out as its id, final-stage flag and
/// creation time, every id once, in the map's own order.
#[verifier::external_body]
fn task_map_entries(m: &TaskMap) -> (r: Vec<(String, bool, u64)>)
    ensures
        forall|i: int|
            0 <= i < r@.len() ==> task_contents(*m).contains_key((#[trigger] r@[i]).0@)
                && task_contents(*m)[r@[i].0@].0 == r@[i].1 && task_contents(*m)[r@[i].0@].1
                == r@[i].2,
        forall|u: Seq<char>| #[trigger]
            task_contents(*m).contains_key(u) ==> exists|i: int|
                0 <= i < r@.len() && #[trigger] r@[i].0@ == u,
        forall|i: int, j: int| 0 <= i < j < r@.len() ==> #[trigger] r@[i].0@ != #[trigger] r@[j].0@,
{
    m.iter().map(|e| (e.key().clone(), e.value().0, e.value().1)).collect()
}

/// A task record is cleaned up at `now`: it has finished and is older than
/// `ttl_secs` (a creation time in the future makes it young).
pub open spec fn task_gone(rec: (bool, u64, Option<Seq<char>>), now: u64, ttl_secs: u64) -> bool {
    rec.0 && now >= rec.1 && now - rec.1 > ttl_secs
}

/// `z` is the archive of some task of `m` cleaned up at `now`.
pub open spec fn archive_of_gone(
    m: Map<Seq<char>, (bool, u64, Option<Seq<char>>)>,
    now: u64,
    ttl_secs: u64,
    z: Seq<char>,
) -> bool {
    exists|k: Seq<char>| #[trigger] m.contains_key(k) && task_gone(m[k], now, ttl_secs) && m[k].2 == Some(z)
}

/// Some text of `zs` is `z`.
pub open spec fn lists_text(zs: Seq<String>, z: Seq<char>) -> bool {
    exists|i: int| 0 <= i < zs.len() && #[trigger] zs[i]@ == z
}

/// The tasks of a batch download run, by id.
pub struct TaskTable {
    map: TaskMap,
}

impl TaskTable {
    /// Each task id with its record.
    pub closed spec fn spec_tasks(&self) -> Map<Seq<char>, (bool, u64, Option<Seq<char>>)> {
        task_contents(self.map)
    }

    /// An empty table.
    pub fn new() -> (t: Self)
        ensures
            t.spec_tasks().dom() == Set::<Seq<char>>::empty(),
    {
        TaskTable { map: task_map_new() }
    }

    /// Adds a new, unfinished task created at `now` under a fresh random id
    /// (8 hex digits, `-`, 3 hex digits), which is returned.
    pub fn create(&mut self, now: u64) -> (id: String)
        ensures
            final(self).spec_tasks() == old(self).spec_tasks().insert(id@, (false, now, None)),
            id@.len() == 12,
            id@[8] == '-',
    {
        let id = new_task_id();
        task_map_insert(&mut self.map, String::from_str(id.as_str()), false, now, None);
        id
    }

    /// The record of task `id`, if there is one.
    pub fn get(&self, id: &str) -> (r: Option<(bool, u64, Option<String>)>)
        ensures
            match r {
                Some(e) => self.spec_tasks().contains_key(id@) && (e.0, e.1, opt_text(e.2))
                    == self.spec_tasks()[id@],
                None => !self.spec_tasks().contains_key(id@),
            },
    {
        task_map_get(&self.map, id)
    }

    /// Updates task `id`, if there is one: its final-stage flag and archive
    /// are set, its creation time kept. Returns whether the task existed.
    pub fn update(&mut self, id: &str, terminal: bool, zip_path: Option<String>) -> (r: bool)
        ensures
            r == old(self).spec_tasks().contains_key(id@),
            r ==> final(self).spec_tasks() == old(self).spec_tasks().insert(
                id@,
                (terminal, old(self).spec_tasks()[id@].1, opt_text(zip_path)),
            ),
            !r ==> final(self).spec_tasks() == old(self).spec_tasks(),
    {
        match task_map_get(&self.map, id) {
            Some((_, created_at, _)) => {
                task_map_insert(&mut self.map, String::from_str(id), terminal, created_at, zip_path);
                true
            },
            None => false,
        }
    }

    /// Removes task `id` and hands its record back, if there was one.
    pub fn remove(&mut self, id: &str) -> (r: Option<(bool, u64, Option<String>)>)
        ensures
            final(self).spec_tasks() == old(self).spec_tasks().remove(id@),
            match r {
                Some(e) => old(self).spec_tasks().contains_key(id@) && (e.0, e.1, opt_text(e.2))
                    == old(self).spec_tasks()[id@],
                None => !old(self).spec_tasks().contains_key(id@),
            },
    {
        task_map_remove(&mut self.map, id)
    }

    /// Removes every finished task older than `ttl_secs` at `now` and returns
    /// the archives they leave behind, to be deleted.
    #[verifier::rlimit(30)]
    pub fn cleanup(&mut self, now: u64, ttl_secs: u64) -> (zips: Vec<String>)
        ensures
            forall|k: Seq<char>| #[trigger]
                final(self).spec_tasks().contains_key(k) <==> (old(self).spec_tasks().contains_key(k)
                    && !task_gone(old(self).spec_tasks()[k], now, ttl_secs)),
            forall|k: Seq<char>| #[trigger]
                final(self).spec_tasks().contains_key(k) ==> final(self).spec_tasks()[k] == old(
                    self,
                ).spec_tasks()[k],
            forall|i: int|
                0 <= i < zips@.len() ==> archive_of_gone(
                    old(self).spec_tasks(),
                    now,
                    ttl_secs,
                    (#[trigger] zips@[i])@,
                ),
            forall|k: Seq<char>| #[trigger]
                old(self).spec_tasks().contains_key(k) && task_gone(old(self).spec_tasks()[k], now, ttl_secs)
                    && old(self).spec_tasks()[k].2 is Some ==> lists_text(
                    zips@,
                    old(self).spec_tasks()[k].2->0,
                ),
    {
        let ghost m0 = task_contents(self.map);
        let es = task_map_entries(&self.map);
        let mut zips: Vec<String> = Vec::new();
        let mut i: usize = 0;
        while i < es.len()
            invariant
                i <= es@.len(),
                forall|a: int|
                    0 <= a < es@.len() ==> m0.contains_key((#[trigger] es@[a]).0@) && m0[es@[a].0@].0
                        == es@[a].1 && m0[es@[a].0@].1 == es@[a].2,
                forall|a: int, b: int| 0 <= a < b < es@.len() ==> #[trigger] es@[a].0@ != #[trigger] es@[b].0@,
                forall|k: Seq<char>| #[trigger]
                    task_contents(self.map).contains_key(k) <==> (m0.contains_key(k) && !(task_gone(
                        m0[k],
                        now,
                        ttl_secs,
                    ) && exists|a: int| 0 <= a < i && #[trigger] es@[a].0@ == k)),
                forall|k: Seq<char>| #[trigger]
                    task_contents(self.map).contains_key(k) ==> task_contents(self.map)[k] == m0[k],
                forall|z: int| 0 <= z < zips@.len() ==> archive_of_gone(m0, now, ttl_secs, (#[trigger] zips@[z])@),
                forall|a: int|
                    0 <= a < i && task_gone(m0[(#[trigger] es@[a]).0@], now, ttl_secs)
                        && m0[es@[a].0@].2 is Some ==> lists_text(zips@, m0[es@[a].0@].2->0),
            decreases es.len() - i,
        {
            let terminal = es[i].1;
            let created = es[i].2;
            let ghost k = es@[i as int].0@;
            let ghost before = task_contents(self.map);
            let ghost zs0 = zips@;
            if terminal && now >= created && now - created > ttl_secs {
                assert(task_gone(m0[k], now, ttl_secs));
                assert(before.contains_key(k)) by {
                    assert forall|a: int| 0 <= a < i implies #[trigger] es@[a].0@ != k by {
                        assert(es@[a].0@ != es@[i as int].0@);
                    }
                }
                let removed = task_map_remove(&mut self.map, es[i].0.as_str());
                match removed {
                    Some((_, _, Some(z))) => {
                        zips.push(z);
                        proof {
                            assert(zips@[zs0.len() as int]@ == m0[k].2->0);
                            assert(archive_of_gone(m0, now, ttl_secs, zips@[zs0.len() as int]@));
                        }
                    },
                    _ => {},
                }
                proof {
                    assert forall|z: int| 0 <= z < zips@.len() implies archive_of_gone(
                        m0,
                        now,
                        ttl_secs,
                        (#[trigger] zips@[z])@,
                    ) by {
                        if z < zs0.len() {
                            assert(zips@[z] == zs0[z]);
                        }
                    }
                    assert forall|a: int|
                        0 <= a < i + 1 && task_gone(m0[(#[trigger] es@[a]).0@], now, ttl_secs)
                            && m0[es@[a].0@].2 is Some implies lists_text(zips@, m0[es@[a].0@].2->0) by {
                        if a < i {
                            let w = choose|w: int| 0 <= w < zs0.len() && #[trigger] zs0[w]@ == m0[es@[a].0@].2->0;
                            assert(zips@[w] == zs0[w]);
                        } else {
                            assert(zips@[zs0.len() as int]@ == m0[k].2->0);
                        }
                    }
                    assert forall|kk: Seq<char>| #[trigger]
                        task_contents(self.map).contains_key(kk) <==> (m0.contains_key(kk) && !(task_gone(
                            m0[kk],
                            now,
                            ttl_secs,
                        ) && exists|a: int| 0 <= a < i + 1 && #[trigger] es@[a].0@ == kk)) by {
                        if kk == k {
                            assert(es@[i as int].0@ == kk);
                        } else if before.contains_key(kk) {
                        } else if m0.contains_key(kk) && task_gone(m0[kk], now, ttl_secs) {
                            let a = choose|a: int| 0 <= a < i && #[trigger] es@[a].0@ == kk;
                            assert(0 <= a < i + 1 && es@[a].0@ == kk);
                        }
                    }
                }
            } else {
                proof {
                    assert(!task_gone(m0[k], now, ttl_secs));
                    assert forall|kk: Seq<char>| #[trigger]
                        task_contents(self.map).contains_key(kk) <==> (m0.contains_key(kk) && !(task_gone(
                            m0[kk],
                            now,
                            ttl_secs,
                        ) && exists|a: int| 0 <= a < i + 1 && #[trigger] es@[a].0@ == kk)) by {
                        if m0.contains_key(kk) && task_gone(m0[kk], now, ttl_secs) && exists|a: int|
                            0 <= a < i + 1 && #[trigger] es@[a].0@ == kk {
                            let a = choose|a: int| 0 <= a < i + 1 && #[trigger] es@[a].0@ == kk;
                            assert(a != i);
                        }
                    }
                }
            }
            i += 1;
        }
        proof {
            assert forall|k: Seq<char>| #[trigger] m0.contains_key(k) && task_gone(m0[k], now, ttl_secs)
                implies !task_contents(self.map).contains_key(k) by {
                let a = choose|a: int| 0 <= a < es@.len() && #[trigger] es@[a].0@ == k;
                assert(es@[a].0@ == k);
            }
            assert forall|k: Seq<char>| #[trigger] m0.contains_key(k) && task_gone(m0[k], now, ttl_secs)
                && m0[k].2 is Some implies lists_text(zips@, m0[k].2->0) by {
                let a = choose|a: int| 0 <= a < es@.len() && #[trigger] es@[a].0@ == k;
                assert(task_gone(m0[es@[a].0@], now, ttl_secs));
            }
        }
        zips
    }
}

} // verus!
