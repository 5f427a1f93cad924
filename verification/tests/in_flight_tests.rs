use netease_music_api::in_flight::InFlightRegistry;

#[test]
fn register_then_contains_then_drop_unregisters() {
    let mut reg = InFlightRegistry::new();
    let p = "/tmp/song.flac.part";
    let guard = reg.register(p);
    assert!(reg.contains(p), "registered path must be visible");
    reg.release(guard);
    assert!(!reg.contains(p), "releasing the guard must unregister");
}

#[test]
fn snapshot_reflects_registered_paths() {
    let mut reg = InFlightRegistry::new();
    let _g1 = reg.register("/tmp/a.part");
    let _g2 = reg.register("/tmp/b.part");
    let snap = reg.snapshot();
    assert_eq!(snap.len(), 2);
    assert!(snap.contains(&"/tmp/a.part".to_string()));
    assert!(snap.contains(&"/tmp/b.part".to_string()));
}

#[test]
fn drop_removes_only_own_path() {
    let mut reg = InFlightRegistry::new();
    let _g1 = reg.register("/tmp/a.part");
    {
        let g2 = reg.register("/tmp/b.part");
        assert_eq!(reg.snapshot().len(), 2);
        reg.release(g2);
    }
    assert!(reg.contains("/tmp/a.part"), "a path still held stays");
    assert!(!reg.contains("/tmp/b.part"), "the inner release only removes its own path");
}

#[test]
fn nested_register_same_path_refcounts() {
    let mut reg = InFlightRegistry::new();
    let p = "/tmp/song.flac.part";
    let job_guard = reg.register(p);
    {
        let attempt1 = reg.register(p);
        assert!(reg.contains(p));
        reg.release(attempt1);
    }
    assert!(reg.contains(p), "the job holder keeps the path after an attempt ends");
    {
        let attempt2 = reg.register(p);
        assert!(reg.contains(p));
        reg.release(attempt2);
    }
    assert!(reg.contains(p), "the path stays registered across refresh cycles");
    reg.release(job_guard);
    assert!(!reg.contains(p), "the last release unregisters");
}

#[test]
fn count_tracks_nested_holders() {
    let mut reg = InFlightRegistry::new();
    let g1 = reg.register("x.part");
    let g2 = reg.register("x.part");
    assert_eq!(reg.count("x.part"), 2);
    assert_eq!(reg.count("y.part"), 0);
    assert_eq!(g1.path(), "x.part");
    reg.release(g1);
    assert_eq!(reg.count("x.part"), 1);
    reg.release(g2);
    assert_eq!(reg.count("x.part"), 0);
    assert!(reg.snapshot().is_empty());
}

#[test]
fn paths_equal_as_paths_share_one_registration() {
    let mut reg = InFlightRegistry::new();
    let g1 = reg.register("/tmp//songs/a.part");
    let g2 = reg.register("/tmp/songs/./a.part");
    assert!(reg.contains("/tmp/songs/a.part"));
    assert_eq!(reg.count("/tmp/songs/a.part"), 2);
    assert_eq!(reg.snapshot(), vec!["/tmp//songs/a.part".to_string()]);
    reg.release(g1);
    reg.release(g2);
    assert!(!reg.contains("/tmp/songs/a.part"));
}
