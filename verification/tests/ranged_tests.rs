use netease_music_api::http_error::HttpFailureKind;
use netease_music_api::manifest::PartManifest;
use netease_music_api::ranged::{
    chunk_already_done, chunk_grid, chunk_len_matches, first_missing_chunk_index, pending_chunks,
    probe_route, probe_status, range_fetch_ok, resolve_resume, ChunkCommit, ChunkRange, ProbeRoute,
    WriteStage,
};

#[test]
fn chunk_grid_partitions_full_range() {
    let grid = chunk_grid(1000, 4);
    assert_eq!(grid.len(), 4);
    assert_eq!((grid[0].start, grid[0].end), (0, 249));
    assert_eq!((grid[1].start, grid[1].end), (250, 499));
    assert_eq!((grid[2].start, grid[2].end), (500, 749));
    assert_eq!((grid[3].start, grid[3].end), (750, 999));
}

#[test]
fn chunk_grid_last_chunk_absorbs_remainder() {
    let grid = chunk_grid(1003, 4);
    assert_eq!((grid[3].start, grid[3].end), (750, 1002));
    assert_eq!(grid[0].start, 0);
    assert_eq!(grid[3].end, 1002);
}

#[test]
fn chunk_grid_single_thread_is_whole_file() {
    let grid = chunk_grid(7, 1);
    assert_eq!(grid, vec![ChunkRange { start: 0, end: 6 }]);
    assert_eq!(grid[0].len(), 7);
}

#[test]
fn first_missing_chunk_skips_filled_prefix() {
    let grid = chunk_grid(1000, 4);
    let mut m = PartManifest::new(0, String::new(), 1000, 250);
    m.record_chunk(0, 249);
    m.record_chunk(250, 499);
    assert_eq!(first_missing_chunk_index(&grid, &m), Some(2));
}

#[test]
fn first_missing_chunk_empty_manifest_is_zero() {
    let grid = chunk_grid(1000, 4);
    let m = PartManifest::new(0, String::new(), 1000, 250);
    assert_eq!(first_missing_chunk_index(&grid, &m), Some(0));
}

#[test]
fn first_missing_chunk_complete_is_none() {
    let grid = chunk_grid(1000, 4);
    let mut m = PartManifest::new(0, String::new(), 1000, 250);
    m.record_chunk(0, 999);
    assert_eq!(first_missing_chunk_index(&grid, &m), None);
}

#[test]
fn chunk_already_done_tracks_contiguous_prefix() {
    let grid = chunk_grid(1000, 4);
    let mut m = PartManifest::new(0, String::new(), 1000, 250);
    m.record_chunk(0, 249);
    m.record_chunk(250, 499);
    assert!(chunk_already_done(grid[0], &m));
    assert!(chunk_already_done(grid[1], &m));
    assert!(!chunk_already_done(grid[2], &m));
    assert!(!chunk_already_done(grid[3], &m));
}

#[test]
fn discontiguous_completed_chunk_is_skipped() {
    let grid = chunk_grid(1000, 4);
    let mut m = PartManifest::new(0, String::new(), 1000, 250);
    m.record_chunk(0, 249);
    m.record_chunk(500, 749);
    assert_eq!(first_missing_chunk_index(&grid, &m), Some(1));
    assert!(chunk_already_done(grid[0], &m), "chunk 0 done");
    assert!(!chunk_already_done(grid[1], &m), "chunk 1 gap → redownload");
    assert!(chunk_already_done(grid[2], &m), "discontiguous chunk 2 done → skip");
    assert!(!chunk_already_done(grid[3], &m), "chunk 3 not done");
}

#[test]
fn pending_chunks_skip_probe_and_done_chunks() {
    let grid = chunk_grid(1000, 4);
    let mut m = PartManifest::new(0, String::new(), 1000, 250);
    m.record_chunk(500, 749);
    assert_eq!(pending_chunks(&grid, 1, &m), vec![0, 3]);
    assert_eq!(pending_chunks(&grid, 0, &PartManifest::new(0, String::new(), 1000, 250)), vec![1, 2, 3]);
}

#[test]
fn resolve_resume_fresh_when_no_sidecar() {
    let (m, needs_truncate) = resolve_resume(None, 1000, 250);
    assert!(needs_truncate, "no sidecar → fresh download (truncate)");
    assert_eq!(m.content_length, 1000);
    assert_eq!(m.contiguous_prefix(), 0);
}

#[test]
fn resolve_resume_resumes_on_matching_content_length() {
    let mut m = PartManifest::new(0, String::new(), 1000, 250);
    m.record_chunk(0, 249);
    let (loaded, needs_truncate) = resolve_resume(Some(m), 1000, 250);
    assert!(!needs_truncate, "matching content_length → resume (no truncate)");
    assert_eq!(loaded.contiguous_prefix(), 250);
}

#[test]
fn resolve_resume_full_restart_on_content_length_mismatch() {
    let mut m = PartManifest::new(0, String::new(), 999, 250);
    m.record_chunk(0, 249);
    let (fresh, needs_truncate) = resolve_resume(Some(m), 1000, 250);
    assert!(needs_truncate, "content_length mismatch → full restart (truncate)");
    assert_eq!(fresh.contiguous_prefix(), 0);
    assert_eq!(fresh.content_length, 1000);
}

#[test]
fn probe_status_classifies_for_retry() {
    assert!(probe_status(206).is_ok());
    assert!(probe_status(200).is_ok());
    assert!(probe_status(203).is_ok());
    assert!(matches!(probe_status(503), Err(HttpFailureKind::Server5xx { status: 503 })));
    assert!(matches!(probe_status(401), Err(HttpFailureKind::AuthExpired)));
    assert!(matches!(probe_status(403), Err(HttpFailureKind::Permanent4xx { status: 403 })));
    assert!(matches!(probe_status(304), Err(HttpFailureKind::Permanent4xx { status: 304 })));
}

#[test]
fn probe_route_by_status() {
    assert_eq!(probe_route(206), ProbeRoute::Ranged);
    assert_eq!(probe_route(200), ProbeRoute::StreamWhole);
    assert_eq!(probe_route(203), ProbeRoute::StreamWhole);
    assert_eq!(probe_route(204), ProbeRoute::SingleStream);
}

#[test]
fn chunk_fetch_checks() {
    let c = ChunkRange { start: 250, end: 499 };
    assert!(chunk_len_matches(c, 250));
    assert!(!chunk_len_matches(c, 249));
    assert!(range_fetch_ok(200));
    assert!(range_fetch_ok(206));
    assert!(!range_fetch_ok(404));
}

#[test]
fn chunk_commit_records_only_after_write_and_flush() {
    let chunk = ChunkRange { start: 0, end: 9 };
    let mut m = PartManifest::new(1, "standard".into(), 20, 10);
    let mut c = ChunkCommit::new(chunk);
    assert_eq!(c.stage(), WriteStage::Fetched);
    // neither flushing nor recording is accepted before the bytes are written
    assert!(!c.flushed());
    assert!(!c.record(&mut m));
    assert_eq!(m.contiguous_prefix(), 0);
    assert!(c.written());
    assert!(!c.record(&mut m));
    assert_eq!(m.contiguous_prefix(), 0);
    assert!(c.flushed());
    assert!(c.record(&mut m));
    assert_eq!(c.stage(), WriteStage::Recorded);
    assert_eq!(m.contiguous_prefix(), 10);
    // a recorded chunk is not recorded twice
    assert!(!c.record(&mut m));
}

#[test]
fn fresh_resume_manifest_is_blank() {
    let (m, truncate) = resolve_resume(None, 1000, 250);
    assert!(truncate);
    assert_eq!(m.song_id(), 0);
    assert_eq!(m.quality(), "");
    assert_eq!(m.schema_version(), 1);
    assert_eq!(m.content_length(), 1000);
    assert_eq!(m.chunk_size(), 250);
    assert!(m.completed_ranges().is_empty());
}
