use netease_music_api::manifest::PartManifest;

fn sample() -> PartManifest {
    PartManifest::new(12345, "lossless".into(), 1000, 256)
}

#[test]
fn new_manifest_is_empty_and_not_complete() {
    let m = sample();
    assert_eq!(m.contiguous_prefix(), 0);
    assert!(!m.is_complete());
    assert_eq!(m.next_missing_range(), Some((0, 999)));
}

#[test]
fn record_first_chunk_advances_prefix() {
    let mut m = sample();
    m.record_chunk(0, 255);
    assert_eq!(m.contiguous_prefix(), 256);
    assert!(!m.is_complete());
    assert_eq!(m.next_missing_range(), Some((256, 999)));
}

#[test]
fn record_full_range_is_complete() {
    let mut m = sample();
    m.record_chunk(0, 999);
    assert!(m.is_complete());
    assert_eq!(m.contiguous_prefix(), 1000);
    assert_eq!(m.next_missing_range(), None);
}

#[test]
fn gap_in_middle_next_missing_stops_before_next_range() {
    let mut m = sample();
    m.record_chunk(0, 255);
    m.record_chunk(512, 767);
    assert_eq!(m.contiguous_prefix(), 256);
    assert_eq!(m.next_missing_range(), Some((256, 511)));
}

#[test]
fn out_of_order_records_normalize() {
    let mut m = sample();
    m.record_chunk(512, 767);
    m.record_chunk(0, 255);
    m.record_chunk(256, 511);
    assert_eq!(m.contiguous_prefix(), 768);
    assert_eq!(m.next_missing_range(), Some((768, 999)));
}

#[test]
fn adjacent_closed_intervals_merge() {
    let mut m = sample();
    m.record_chunk(0, 255);
    m.record_chunk(256, 511);
    assert_eq!(m.contiguous_prefix(), 512);
}

#[test]
fn overlapping_records_merge_without_double_count() {
    let mut m = sample();
    m.record_chunk(0, 300);
    m.record_chunk(200, 500);
    assert_eq!(m.contiguous_prefix(), 501);
}

#[test]
fn is_range_complete_covers_discontiguous_chunks() {
    let mut m = sample();
    m.record_chunk(0, 255);
    m.record_chunk(512, 767);
    assert!(m.is_range_complete(0, 255), "chunk 0 fully recorded");
    assert!(m.is_range_complete(512, 767), "discontiguous chunk 2 fully recorded");
    assert!(!m.is_range_complete(256, 511), "gap chunk not recorded");
    assert!(!m.is_range_complete(200, 300), "spanning a gap is not complete");
}

#[test]
fn completed_bytes_empty_is_zero() {
    assert_eq!(sample().completed_bytes(), 0);
}

#[test]
fn completed_bytes_contiguous_equals_prefix() {
    let mut m = sample();
    m.record_chunk(0, 255);
    m.record_chunk(256, 511);
    assert_eq!(m.completed_bytes(), 512);
    assert_eq!(m.completed_bytes(), m.contiguous_prefix());
}

#[test]
fn completed_bytes_counts_discontiguous_chunks() {
    let mut m = sample();
    m.record_chunk(0, 255);
    m.record_chunk(512, 767);
    assert_eq!(m.completed_bytes(), 512, "discrete chunks counted for progress");
    assert_eq!(m.contiguous_prefix(), 256, "contiguous_prefix must stay resume-start semantics");
}

#[test]
fn completed_bytes_clamps_to_content_length() {
    let mut m = sample();
    m.record_chunk(0, 999);
    assert_eq!(m.completed_bytes(), 1000);
}

#[test]
fn leading_gap_keeps_prefix_zero() {
    let mut m = sample();
    m.record_chunk(256, 511);
    assert_eq!(m.contiguous_prefix(), 0);
    assert_eq!(m.next_missing_range(), Some((0, 255)));
}

#[test]
fn record_merges_bridge_between_two_ranges() {
    let mut m = sample();
    m.record_chunk(0, 99);
    m.record_chunk(200, 299);
    m.record_chunk(400, 499);
    m.record_chunk(100, 199);
    assert_eq!(m.completed_ranges(), vec![(0, 299), (400, 499)]);
    assert_eq!(m.completed_bytes(), 400);
}

#[test]
fn record_same_range_twice_changes_nothing() {
    let mut m = sample();
    m.record_chunk(10, 20);
    let before = m.completed_ranges();
    m.record_chunk(10, 20);
    m.record_chunk(12, 15);
    assert_eq!(m.completed_ranges(), before);
}

#[test]
fn completed_bytes_clamps_overlong_range() {
    let mut m = sample();
    m.record_chunk(0, 1999);
    assert_eq!(m.completed_bytes(), 1000);
    assert_eq!(m.contiguous_prefix(), 1000);
}

#[test]
fn from_parts_accepts_schema_one_and_normalises_ranges() {
    let ok = PartManifest::from_parts(1, 1, "lossless".into(), 10, 4, vec![(0, 3), (5, 7)]);
    assert!(ok.is_some());
    let ok = ok.unwrap();
    assert_eq!(ok.contiguous_prefix(), 4);
    assert_eq!(ok.schema_version(), 1);
    assert_eq!(ok.completed_ranges(), vec![(0, 3), (5, 7)]);
    // adjacent ranges are merged
    let m = PartManifest::from_parts(1, 1, "x".into(), 10, 4, vec![(0, 3), (4, 7)]).unwrap();
    assert_eq!(m.completed_ranges(), vec![(0, 7)]);
    // unknown schema version
    assert!(PartManifest::from_parts(99, 1, "x".into(), 10, 4, vec![]).is_none());
    // a reversed range covers nothing
    let m = PartManifest::from_parts(1, 1, "x".into(), 10, 4, vec![(5, 2)]).unwrap();
    assert_eq!(m.completed_ranges(), vec![]);
    // unsorted ranges are sorted
    let m = PartManifest::from_parts(1, 1, "x".into(), 10, 4, vec![(5, 9), (0, 3)]).unwrap();
    assert_eq!(m.completed_ranges(), vec![(0, 3), (5, 9)]);
    assert_eq!(m.contiguous_prefix(), 4);
    assert!(m.is_complete() == false);
}

#[test]
fn recording_order_does_not_change_stored_ranges() {
    let mut a = sample();
    a.record_chunk(0, 99);
    a.record_chunk(300, 399);
    a.record_chunk(100, 150);
    let mut b = sample();
    b.record_chunk(120, 150);
    b.record_chunk(300, 350);
    b.record_chunk(0, 119);
    b.record_chunk(340, 399);
    assert_eq!(a.completed_ranges(), b.completed_ranges());
    assert_eq!(a.completed_ranges(), vec![(0, 150), (300, 399)]);
}

#[test]
fn stored_fields_rebuild_the_same_manifest() {
    let mut m = sample();
    m.record_chunk(0, 255);
    m.record_chunk(512, 767);
    let n = PartManifest::from_parts(
        m.schema_version(),
        m.song_id(),
        m.quality().to_string(),
        m.content_length(),
        m.chunk_size(),
        m.completed_ranges(),
    )
    .unwrap();
    assert_eq!(n.song_id(), 12345);
    assert_eq!(n.quality(), "lossless");
    assert_eq!(n.chunk_size(), 256);
    assert_eq!(n.completed_ranges(), m.completed_ranges());
    assert_eq!(n.contiguous_prefix(), m.contiguous_prefix());
    assert_eq!(n.next_missing_range(), m.next_missing_range());
}
