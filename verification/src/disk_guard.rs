//! Eviction planning of the disk-space guard: given the cached files
//! (oldest first), the paths being written by downloads, the clock, a grace
//! period and the byte deficit, decide which files to delete.
//!
//! Two lines of defence keep live downloads safe: a path registered as in
//! flight is never evicted, whatever its age; any other file modified less
//! than the grace period ago (or in the future, after a clock change) is
//! skipped as well.

use vstd::prelude::*;

use crate::error::AppError;
use crate::paths::{path_eq, path_eq_spec};
use crate::text::{decimal, push_decimal, push_str, str_eq};

verus! {

/// A cached file: its path, size in bytes and modification time
/// (nanoseconds since the Unix epoch).
#[derive(Debug, Clone, PartialEq, Eq)]
pub struct FileEntry {
    pub path: String,
    pub size: u64,
    pub modified: u128,
}

/// Files to delete, in order, and how many candidates were skipped and why.
#[derive(Debug)]
pub struct EvictionPlan {
    pub to_evict: Vec<FileEntry>,
    pub skipped_recent: usize,
    pub skipped_in_flight: usize,
}

/// Whether `path` is one of the in-flight paths: the same text, or a path
/// equal to it as `Path`'s `==` sees it (component by component).
pub open spec fn in_flight_has(in_flight: Seq<String>, path: Seq<char>) -> bool {
    exists|j: int|
        0 <= j < in_flight.len() && ((#[trigger] in_flight[j])@ == path || path_eq_spec(in_flight[j]@, path))
}

/// A file is old enough to evict: not modified in the future and at least
/// `grace` nanoseconds ago.
pub open spec fn old_enough(f: FileEntry, now: u128, grace: u128) -> bool {
    now >= f.modified && now - f.modified >= grace
}

/// Planning state after the first `i` candidates: bytes planned to free
/// (saturating), indices to evict, skipped as recent, skipped as in flight.
pub open spec fn plan_fold(
    files: Seq<FileEntry>,
    now: u128,
    grace: u128,
    deficit: u64,
    in_flight: Seq<String>,
    i: nat,
) -> (u64, Seq<int>, nat, nat)
    decreases i,
{
    if i == 0 || i > files.len() {
        (0, Seq::empty(), 0, 0)
    } else {
        let (freed, evict, recent, inflight) = plan_fold(
            files,
            now,
            grace,
            deficit,
            in_flight,
            (i - 1) as nat,
        );
        let f = files[i - 1];
        if freed >= deficit {
            (freed, evict, recent, inflight)
        } else if in_flight_has(in_flight, f.path@) {
            (freed, evict, recent, inflight + 1)
        } else if old_enough(f, now, grace) {
            (
                if freed + f.size <= u64::MAX {
                    (freed + f.size) as u64
                } else {
                    u64::MAX
                },
                evict.push(i - 1),
                recent,
                inflight,
            )
        } else {
            (freed, evict, recent + 1, inflight)
        }
    }
}

/// Whether `path` is registered as in flight.
fn is_in_flight(in_flight: &Vec<String>, path: &String) -> (r: bool)
    ensures
        r == in_flight_has(in_flight@, path@),
{
    let mut j: usize = 0;
    while j < in_flight.len()
        invariant
            j <= in_flight.len(),
            forall|k: int|
                0 <= k < j ==> (#[trigger] in_flight@[k])@ != path@ && !path_eq_spec(in_flight@[k]@, path@),
        decreases in_flight.len() - j,
    {
        if str_eq(in_flight[j].as_str(), path.as_str()) || path_eq(in_flight[j].as_str(), path.as_str()) {
            return true;
        }
        j += 1;
    }
    false
}

/// Plans evictions: walks the candidates in order until the planned bytes
/// cover the deficit, skipping in-flight paths and files within the grace
/// period, and evicting the others. The in-flight paths are a list
/// compared as paths (see [`in_flight_has`]): `PathBuf` has no model here,
/// so a hash set of them could not be reasoned about.
pub fn select_evictions(
    files: &Vec<FileEntry>,
    now: u128,
    grace: u128,
    deficit: u64,
    in_flight: &Vec<String>,
) -> (plan: EvictionPlan)
    ensures
        ({
            let (freed, evict, recent, inflight) = plan_fold(
                files@,
                now,
                grace,
                deficit,
                in_flight@,
                files.len() as nat,
            );
            &&& plan.to_evict.len() == evict.len()
            &&& forall|j: int|
                0 <= j < evict.len() ==> plan.to_evict@[j] == files@[#[trigger] evict[j]]
            &&& plan.skipped_recent == recent
            &&& plan.skipped_in_flight == inflight
        }),
{
    let mut to_evict: Vec<FileEntry> = Vec::new();
    let ghost mut evict: Seq<int> = Seq::empty();
    let mut skipped_recent: usize = 0;
    let mut skipped_in_flight: usize = 0;
    let mut planned_freed: u64 = 0;
    let mut i: usize = 0;
    while i < files.len()
        invariant
            i <= files.len(),
            plan_fold(files@, now, grace, deficit, in_flight@, i as nat) == (
                planned_freed,
                evict,
                skipped_recent as nat,
                skipped_in_flight as nat,
            ),
            to_evict.len() == evict.len(),
            forall|j: int| 0 <= j < evict.len() ==> to_evict@[j] == files@[#[trigger] evict[j]],
            skipped_recent <= i,
            skipped_in_flight <= i,
        decreases files.len() - i,
    {
        let f = &files[i];
        if planned_freed >= deficit {
        } else if is_in_flight(in_flight, &f.path) {
            skipped_in_flight += 1;
        } else if now >= f.modified && now - f.modified >= grace {
            planned_freed = if planned_freed <= u64::MAX - f.size {
                planned_freed + f.size
            } else {
                u64::MAX
            };
            to_evict.push(FileEntry { path: f.path.clone(), size: f.size, modified: f.modified });
            proof {
                evict = evict.push(i as int);
            }
        } else {
            skipped_recent += 1;
        }
        i += 1;
    }
    EvictionPlan { to_evict, skipped_recent, skipped_in_flight }
}

/// No in-flight path and no file within the grace period is ever planned
/// for eviction, and the plan keeps the candidates' order.
pub proof fn lemma_plan_safe(
    files: Seq<FileEntry>,
    now: u128,
    grace: u128,
    deficit: u64,
    in_flight: Seq<String>,
    i: nat,
)
    requires
        i <= files.len(),
    ensures
        ({
            let evict = plan_fold(files, now, grace, deficit, in_flight, i).1;
            &&& forall|j: int|
                0 <= j < evict.len() ==> 0 <= #[trigger] evict[j] < i && !in_flight_has(
                    in_flight,
                    files[evict[j]].path@,
                ) && old_enough(files[evict[j]], now, grace)
            &&& forall|a: int, b: int| 0 <= a < b < evict.len() ==> #[trigger] evict[a] < #[trigger] evict[b]
        }),
    decreases i,
{
    if i > 0 {
        lemma_plan_safe(files, now, grace, deficit, in_flight, (i - 1) as nat);
        let prev = plan_fold(files, now, grace, deficit, in_flight, (i - 1) as nat);
        let cur = plan_fold(files, now, grace, deficit, in_flight, i);
        let f = files[i - 1];
        if !(prev.0 >= deficit) && !in_flight_has(in_flight, f.path@) && old_enough(f, now, grace) {
            assert(cur.1 == prev.1.push(i - 1));
            assert forall|j: int|
                0 <= j < cur.1.len() implies 0 <= #[trigger] cur.1[j] < i && !in_flight_has(
                in_flight,
                files[cur.1[j]].path@,
            ) && old_enough(files[cur.1[j]], now, grace) by {
                if j < prev.1.len() {
                    assert(cur.1[j] == prev.1[j]);
                }
            }
            assert forall|a: int, b: int| 0 <= a < b < cur.1.len() implies #[trigger] cur.1[a]
                < #[trigger] cur.1[b] by {
                if b < prev.1.len() {
                    assert(cur.1[a] == prev.1[a] && cur.1[b] == prev.1[b]);
                } else {
                    assert(cur.1[a] == prev.1[a]);
                }
            }
        } else {
            assert(cur.1 == prev.1);
        }
    }
}

/// The plan never goes past the first candidate at which the planned bytes
/// already cover the deficit: planning stops as soon as the deficit is met.
pub proof fn lemma_plan_stops_at_deficit(
    files: Seq<FileEntry>,
    now: u128,
    grace: u128,
    deficit: u64,
    in_flight: Seq<String>,
    i: nat,
)
    requires
        i < files.len(),
        plan_fold(files, now, grace, deficit, in_flight, i).0 >= deficit,
    ensures
        plan_fold(files, now, grace, deficit, in_flight, i + 1) == plan_fold(
            files,
            now,
            grace,
            deficit,
            in_flight,
            i,
        ),
{
}

/// `a` comes before `b` in age order: older first, ties in original order.
pub open spec fn age_before(files: Seq<FileEntry>, a: usize, b: usize) -> bool {
    files[a as int].modified < files[b as int].modified || (files[a as int].modified
        == files[b as int].modified && a < b)
}

/// `order` lists every index of `files` exactly once, oldest file first,
/// files of equal age in their original order.
pub open spec fn is_age_order(files: Seq<FileEntry>, order: Seq<usize>) -> bool {
    &&& order.len() == files.len()
    &&& forall|k: int| 0 <= k < order.len() ==> #[trigger] order[k] < files.len()
    &&& forall|a: int, b: int|
        0 <= a < b < order.len() ==> age_before(files, #[trigger] order[a], #[trigger] order[b])
}

/// Indices of the files from oldest to newest (a stable sort by
/// modification time).
pub fn age_order(files: &Vec<FileEntry>) -> (order: Vec<usize>)
    ensures
        is_age_order(files@, order@),
{
    let n = files.len();
    let mut order: Vec<usize> = Vec::new();
    let mut i: usize = 0;
    while i < n
        invariant
            n == files.len(),
            i <= n,
            order.len() == i,
            forall|k: int| 0 <= k < order.len() ==> #[trigger] order@[k] < i,
            forall|a: int, b: int|
                0 <= a < b < order.len() ==> age_before(files@, #[trigger] order@[a], #[trigger] order@[b]),
        decreases n - i,
    {
        let m = files[i].modified;
        let mut p: usize = 0;
        while p < order.len() && files[order[p]].modified <= m
            invariant
                n == files.len(),
                i < n,
                m == files@[i as int].modified,
                order.len() == i,
                p <= order.len(),
                forall|k: int| 0 <= k < order.len() ==> #[trigger] order@[k] < i,
                forall|k: int| 0 <= k < p ==> files@[#[trigger] order@[k] as int].modified <= m,
            decreases order.len() - p,
        {
            p += 1;
        }
        let ghost before = order@;
        proof {
            assert forall|k: int| p <= k < before.len() implies files@[#[trigger] before[k] as int].modified
                > m by {
                if k > p {
                    assert(age_before(files@, before[p as int], before[k]));
                }
            }
        }
        order.insert(p, i);
        proof {
            assert forall|a: int, b: int|
                0 <= a < b < order.len() implies age_before(files@, #[trigger] order@[a], #[trigger] order@[b]) by {
                if b < p {
                    assert(order@[a] == before[a] && order@[b] == before[b]);
                } else if b == p {
                    assert(order@[a] == before[a]);
                } else if a < p {
                    assert(order@[a] == before[a] && order@[b] == before[b - 1]);
                } else if a == p {
                    assert(order@[b] == before[b - 1]);
                } else {
                    assert(order@[a] == before[a - 1] && order@[b] == before[b - 1]);
                }
            }
        }
        i += 1;
    }
    order
}

/// An age order lists no index twice.
pub proof fn lemma_age_order_distinct(files: Seq<FileEntry>, order: Seq<usize>)
    requires
        is_age_order(files, order),
    ensures
        forall|a: int, b: int| 0 <= a < b < order.len() ==> #[trigger] order[a] != #[trigger] order[b],
{
    assert forall|a: int, b: int| 0 <= a < b < order.len() implies #[trigger] order[a]
        != #[trigger] order[b] by {
        assert(age_before(files, order[a], order[b]));
    }
}

/// The files from oldest to newest (a stable sort by modification time).
pub fn sort_by_age(files: &Vec<FileEntry>) -> (sorted: Vec<FileEntry>)
    ensures
        exists|order: Seq<usize>|
            is_age_order(files@, order) && sorted@.len() == order.len() && forall|k: int|
                0 <= k < order.len() ==> sorted@[k] == files@[#[trigger] order[k] as int],
{
    let order = age_order(files);
    let mut sorted: Vec<FileEntry> = Vec::new();
    let mut k: usize = 0;
    while k < order.len()
        invariant
            is_age_order(files@, order@),
            k <= order.len(),
            sorted.len() == k,
            forall|j: int| 0 <= j < k ==> sorted@[j] == files@[#[trigger] order@[j] as int],
        decreases order.len() - k,
    {
        let f = &files[order[k]];
        sorted.push(FileEntry { path: f.path.clone(), size: f.size, modified: f.modified });
        k += 1;
    }
    sorted
}

/// Bytes still missing on disk: `None` when `available` covers the reserve
/// plus the download (their sum saturating), otherwise the shortfall.
pub fn disk_deficit(available: u64, min_free_disk: u64, needed_bytes: u64) -> (r: Option<u64>)
    ensures
        ({
            let required = if min_free_disk + needed_bytes <= u64::MAX {
                min_free_disk + needed_bytes
            } else {
                u64::MAX as int
            };
            if available >= required {
                r is None
            } else {
                r == Some((required - available) as u64)
            }
        }),
{
    let required = if min_free_disk <= u64::MAX - needed_bytes {
        min_free_disk + needed_bytes
    } else {
        u64::MAX
    };
    if available >= required {
        None
    } else {
        Some(required - available)
    }
}


/// Free bytes to have before a download: the reserve plus the download,
/// saturating.
pub open spec fn required_space(min_free_disk: u64, needed_bytes: u64) -> u64 {
    if min_free_disk + needed_bytes <= u64::MAX {
        (min_free_disk + needed_bytes) as u64
    } else {
        u64::MAX
    }
}

/// The reserve plus the download, saturating.
pub fn required_bytes(min_free_disk: u64, needed_bytes: u64) -> (r: u64)
    ensures
        r == required_space(min_free_disk, needed_bytes),
{
    if min_free_disk <= u64::MAX - needed_bytes {
        min_free_disk + needed_bytes
    } else {
        u64::MAX
    }
}

/// The verdict after eviction: enough space, or a disk-full error giving
/// the available and required space in whole MiB.
pub fn space_verdict(available: u64, required: u64) -> (r: Result<(), AppError>)
    ensures
        available >= required ==> r is Ok,
        available < required ==> (r matches Err(AppError::DiskFull(m)) && m@ == "磁盘空间不足: 可用 "@
            + decimal((available / 1048576) as nat) + "MB, 需要 "@ + decimal(
            (required / 1048576) as nat,
        ) + "MB"@),
{
    if available >= required {
        Ok(())
    } else {
        let mut m = String::new();
        push_str(&mut m, "磁盘空间不足: 可用 ");
        push_decimal(&mut m, available / 1024 / 1024);
        push_str(&mut m, "MB, 需要 ");
        push_decimal(&mut m, required / 1024 / 1024);
        push_str(&mut m, "MB");
        Err(AppError::DiskFull(m))
    }
}

/// The error when the free space cannot be queried.
pub fn space_query_failed(reason: &str) -> (e: AppError)
    ensures
        e matches AppError::Download(m) && m@ == "无法查询磁盘空间: "@ + reason@,
{
    let mut m = String::new();
    push_str(&mut m, "无法查询磁盘空间: ");
    push_str(&mut m, reason);
    AppError::Download(m)
}

/// Bytes freed so far plus one more evicted file, saturating.
pub fn add_freed(freed: u64, size: u64) -> (r: u64)
    ensures
        r == if freed + size <= u64::MAX {
            (freed + size) as u64
        } else {
            u64::MAX
        },
{
    if freed <= u64::MAX - size {
        freed + size
    } else {
        u64::MAX
    }
}


/// A downloaded file is removed by the periodic clean-up once it is older
/// than the maximum age (an age that cannot be read counts as 0).
pub fn cleanup_due(age_secs: u64, max_age_secs: u64) -> (r: bool)
    ensures
        r == (age_secs > max_age_secs),
{
    age_secs > max_age_secs
}

/// The periodic clean-up runs only while no download holds a permit.
pub fn cleanup_allowed(available_permits: usize, capacity: usize) -> (r: bool)
    ensures
        r == (available_permits >= capacity),
{
    available_permits >= capacity
}

} // verus!
