use netease_music_api::disk_guard::{
    age_order, disk_deficit, select_evictions, sort_by_age, FileEntry,
};

const NS: u128 = 1_000_000_000;

fn secs(n: u128) -> u128 {
    n * NS
}

fn entry(path: &str, size: u64, modified: u128) -> FileEntry {
    FileEntry { path: path.to_string(), size, modified }
}

fn no_in_flight() -> Vec<String> {
    Vec::new()
}

#[test]
fn boundary_age_equals_grace_is_evicted() {
    let now = secs(10_000);
    let grace = secs(300);
    let modified = now - grace;
    let files = vec![entry("a", 100, modified)];
    let plan = select_evictions(&files, now, grace, 50, &no_in_flight());
    assert_eq!(plan.to_evict.len(), 1, "age==grace 应被驱逐 (>= grace)");
    assert_eq!(plan.skipped_recent, 0);
    assert_eq!(plan.skipped_in_flight, 0);
}

#[test]
fn within_grace_is_skipped() {
    let now = secs(10_000);
    let grace = secs(300);
    let modified = now - secs(299);
    let files = vec![entry("a", 100, modified)];
    let plan = select_evictions(&files, now, grace, 50, &no_in_flight());
    assert_eq!(plan.to_evict.len(), 0);
    assert_eq!(plan.skipped_recent, 1);
}

#[test]
fn future_mtime_is_conservatively_skipped() {
    let now = secs(10_000);
    let grace = secs(300);
    let modified = now + secs(60);
    let files = vec![entry("a", 100, modified)];
    let plan = select_evictions(&files, now, grace, 50, &no_in_flight());
    assert_eq!(plan.to_evict.len(), 0, "未来 mtime 必须保守跳过");
    assert_eq!(plan.skipped_recent, 1);
}

#[test]
fn all_recent_returns_empty_plan() {
    let now = secs(10_000);
    let grace = secs(300);
    let modified = now - secs(60);
    let files = vec![entry("a", 100, modified), entry("b", 200, modified), entry("c", 300, modified)];
    let plan = select_evictions(&files, now, grace, 1_000_000, &no_in_flight());
    assert_eq!(plan.to_evict.len(), 0);
    assert_eq!(plan.skipped_recent, 3);
}

#[test]
fn stops_at_deficit_threshold() {
    let now = secs(10_000);
    let grace = secs(300);
    let old = now - secs(1000);
    let files = vec![entry("a", 100, old), entry("b", 200, old), entry("c", 300, old)];
    let plan = select_evictions(&files, now, grace, 250, &no_in_flight());
    assert_eq!(plan.to_evict.len(), 2);
    assert_eq!(plan.skipped_recent, 0);
}

#[test]
fn mixed_recent_old_future() {
    let now = secs(10_000);
    let grace = secs(300);
    let files = vec![
        entry("recent", 100, now - secs(60)),
        entry("old", 200, now - secs(1000)),
        entry("future", 300, now + secs(60)),
    ];
    let plan = select_evictions(&files, now, grace, 1_000_000, &no_in_flight());
    assert_eq!(plan.to_evict.len(), 1);
    assert_eq!(plan.to_evict[0].path, "old");
    assert_eq!(plan.skipped_recent, 2);
}

#[test]
fn in_flight_old_file_is_skipped_not_evicted() {
    let now = secs(10_000);
    let grace = secs(300);
    let old = now - secs(10_000);
    let files = vec![entry("song.part", 4096, old)];
    let in_flight = vec!["song.part".to_string()];
    let plan = select_evictions(&files, now, grace, 1_000_000, &in_flight);
    assert_eq!(plan.to_evict.len(), 0, "in-flight .part 即使超 grace 也禁驱逐");
    assert_eq!(plan.skipped_in_flight, 1);
    assert_eq!(plan.skipped_recent, 0, "in-flight 优先于 mtime 计数");
}

#[test]
fn not_in_flight_old_file_still_evicted() {
    let now = secs(10_000);
    let grace = secs(300);
    let old = now - secs(10_000);
    let files = vec![entry("active.part", 100, old), entry("cold.flac", 200, old)];
    let in_flight = vec!["active.part".to_string()];
    let plan = select_evictions(&files, now, grace, 1_000_000, &in_flight);
    assert_eq!(plan.to_evict.len(), 1);
    assert_eq!(plan.to_evict[0].path, "cold.flac");
    assert_eq!(plan.skipped_in_flight, 1);
}

#[test]
fn eviction_size_saturates() {
    let now = secs(10_000);
    let files = vec![entry("a", u64::MAX, 0), entry("b", 5, 0)];
    let plan = select_evictions(&files, now, 0, u64::MAX, &no_in_flight());
    assert_eq!(plan.to_evict.len(), 1, "saturated total covers the deficit");
}

#[test]
fn age_order_is_stable_oldest_first() {
    let files = vec![entry("c", 1, 30), entry("a", 1, 10), entry("b", 1, 30), entry("d", 1, 5)];
    assert_eq!(age_order(&files), vec![3, 1, 0, 2]);
    let sorted = sort_by_age(&files);
    let names: Vec<&str> = sorted.iter().map(|f| f.path.as_str()).collect();
    assert_eq!(names, vec!["d", "a", "c", "b"]);
    assert!(age_order(&Vec::new()).is_empty());
}

#[test]
fn deficit_with_saturating_requirement() {
    assert_eq!(disk_deficit(1000, 500, 400), None);
    assert_eq!(disk_deficit(1000, 500, 600), Some(100));
    assert_eq!(disk_deficit(10, u64::MAX, 5), Some(u64::MAX - 10));
}

#[test]
fn in_flight_paths_are_compared_as_paths() {
    let now = secs(10_000);
    let files = vec![entry("/d/songs/a.flac.part", 100, 0), entry("/d/songs/b.flac", 100, 0)];
    let in_flight = vec!["/d//songs/a.flac.part".to_string()];
    let plan = select_evictions(&files, now, secs(300), 150, &in_flight);
    assert_eq!(plan.skipped_in_flight, 1);
    assert_eq!(plan.to_evict.len(), 1);
    assert_eq!(plan.to_evict[0].path, "/d/songs/b.flac");
}
