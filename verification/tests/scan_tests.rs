use netease_music_api::scan::all_same;
use netease_music_api::scan::{
    already_in_used, assets_to_move, build_path, change_label, cover_candidates, cover_write,
    decode_text, find_cover, find_lyric, find_srt, group_audio_files, group_key,
    guess_image_mime, is_supported_audio, lyric_source, needs_choice, parse_choice, prompt_start,
    record_embed, record_no_assets, record_relocation, record_skipped_group, relocation_parts,
    relocation_target, should_save, src_dir_label, srt_lyrics, tag_type_for, too_many_conflicts,
    used_dir_for, wants_cover, wants_lyrics, AssetKind, Choice, CoverWrite, EmbedResult,
    ImageMime, LyricSource, Options, PromptStart, RelocateOutcome, Stats, TagKind,
};

fn opts() -> Options {
    Options { recursive: true, force: false, dry_run: false, no_move: false, assume_yes: false }
}

#[test]
fn tag_types_by_extension() {
    assert_eq!(tag_type_for("/m/a.mp3"), Some(TagKind::Id3v2));
    assert_eq!(tag_type_for("/m/a.MP3"), Some(TagKind::Id3v2));
    assert_eq!(tag_type_for("a.aif"), Some(TagKind::Id3v2));
    assert_eq!(tag_type_for("a.Flac"), Some(TagKind::VorbisComments));
    assert_eq!(tag_type_for("a.opus"), Some(TagKind::VorbisComments));
    assert_eq!(tag_type_for("a.m4a"), Some(TagKind::Mp4Ilst));
    assert_eq!(tag_type_for("a.txt"), None);
    assert_eq!(tag_type_for("noext"), None);
    assert!(is_supported_audio("x.wav"));
    assert!(!is_supported_audio("x.lrc"));
}

#[test]
fn image_mime_by_extension() {
    assert_eq!(guess_image_mime("c.png"), ImageMime::Png);
    assert_eq!(guess_image_mime("c.PNG"), ImageMime::Png);
    assert_eq!(guess_image_mime("c.jpg"), ImageMime::Jpeg);
    assert_eq!(guess_image_mime("c"), ImageMime::Jpeg);
}

#[test]
fn embed_result_labels() {
    let both = EmbedResult { cover_embedded: true, lyrics_embedded: true, ..EmbedResult::default() };
    let cover = EmbedResult { cover_embedded: true, ..EmbedResult::default() };
    let lyrics = EmbedResult { lyrics_embedded: true, ..EmbedResult::default() };
    let none = EmbedResult { cover_present: true, lyrics_present: true, ..EmbedResult::default() };
    assert_eq!(change_label(both), "+ cover + lyrics");
    assert_eq!(change_label(cover), "+ cover");
    assert_eq!(change_label(lyrics), "+ lyrics");
    assert_eq!(change_label(none), "");
    assert!(both.changed() && cover.changed() && lyrics.changed());
    assert!(!none.changed());
    assert!(should_save(cover, false));
    assert!(!should_save(cover, true));
    assert!(!should_save(none, false));
}

#[test]
fn choice_parsing() {
    assert_eq!(parse_choice("", 3), Choice::All);
    assert_eq!(parse_choice("a", 3), Choice::All);
    assert_eq!(parse_choice("A", 3), Choice::All);
    assert_eq!(parse_choice("s", 3), Choice::Skip);
    assert_eq!(parse_choice("S", 3), Choice::Skip);
    assert_eq!(parse_choice("1,3", 3), Choice::Picks(vec![0, 2]));
    assert_eq!(parse_choice("2, ,1", 3), Choice::Picks(vec![1, 0]));
    assert_eq!(parse_choice(" 3 ", 3), Choice::Picks(vec![2]));
    assert_eq!(parse_choice("+2", 3), Choice::Picks(vec![1]));
    assert_eq!(parse_choice(",", 3), Choice::Skip);
    assert_eq!(parse_choice("4", 3), Choice::Invalid("4".into()));
    assert_eq!(parse_choice("0", 3), Choice::Invalid("0".into()));
    assert_eq!(parse_choice("1,x ,2", 3), Choice::Invalid("x".into()));
    assert_eq!(parse_choice("all", 3), Choice::Invalid("all".into()));
}

#[test]
fn group_handling_before_prompt() {
    assert!(!needs_choice(1, false));
    assert!(!needs_choice(3, true));
    assert!(needs_choice(3, false));
    assert_eq!(prompt_start(true, false), PromptStart::All);
    assert_eq!(prompt_start(false, false), PromptStart::Skip);
    assert_eq!(prompt_start(false, true), PromptStart::Ask);
}

#[test]
fn dir_labels() {
    assert_eq!(src_dir_label("/r/a/b/x.jpg", "/r"), Some("a-b".to_string()));
    assert_eq!(src_dir_label("/r/x.jpg", "/r"), None);
    assert_eq!(src_dir_label("/r/a:b/x.jpg", "/r"), Some("a_b".to_string()));
    assert_eq!(src_dir_label("/other/x.jpg", "/r"), None);
}

#[test]
fn relocation_candidates_in_order() {
    let label = Some("a-b".to_string());
    assert_eq!(relocation_target("/r/_used", "x", &label, "jpg", 0), Some("/r/_used/x.jpg".into()));
    assert_eq!(relocation_target("/r/_used", "x", &label, "jpg", 1), Some("/r/_used/a-b__x.jpg".into()));
    assert_eq!(relocation_target("/r/_used", "x", &label, "jpg", 2), Some("/r/_used/a-b__x-01.jpg".into()));
    assert_eq!(relocation_target("/r/_used", "x", &label, "jpg", 1000), Some("/r/_used/a-b__x-999.jpg".into()));
    assert_eq!(relocation_target("/r/_used", "x", &label, "jpg", 1001), None);
    assert_eq!(relocation_target("/r/_used", "x", &None, "lrc", 1), Some("/r/_used/x-01.lrc".into()));
    assert_eq!(relocation_target("/r/_used", "x", &None, "", 3), Some("/r/_used/x-03".into()));
    assert_eq!(relocation_target("/r/_used", "x", &None, "lrc", 999), Some("/r/_used/x-999.lrc".into()));
    assert_eq!(relocation_target("/r/_used", "x", &None, "lrc", 1000), None);
    assert_eq!(build_path("/d", "s", Some(7), ""), "/d/s-07");
    assert_eq!(build_path("/d", "s", None, "png"), "/d/s.png");
    assert_eq!(used_dir_for("/r"), "/r/_used");
    assert!(already_in_used("/r/_used/x.jpg", "/r"));
    assert!(!already_in_used("/r/x.jpg", "/r"));
    assert_eq!(relocation_parts("/r/x.tar.gz"), Some(("x.tar".to_string(), "gz".to_string())));
    assert_eq!(relocation_parts("/r/x"), Some(("x".to_string(), String::new())));
    assert_eq!(too_many_conflicts("_used", "x"), "too many conflicts under _used for stem 'x'");
}

#[test]
fn sidecar_lookup() {
    let c = cover_candidates("/m", "song");
    assert_eq!(c, vec!["/m/song.jpg".to_string(), "/m/song.jpeg".into(), "/m/song.png".into()]);
    let existing = vec!["/m/song.png".to_string(), "/m/song.jpeg".to_string(), "/m/song.srt".to_string()];
    assert_eq!(find_cover("/m", "song", &existing), Some("/m/song.jpeg".into()));
    assert_eq!(find_lyric("/m", "song", &existing), None);
    assert_eq!(find_srt("/m", "song", &existing), Some("/m/song.srt".into()));
    assert_eq!(find_cover("/m", "other", &existing), None);
}

#[test]
fn grouping_by_directory_and_stem() {
    assert_eq!(group_key("/m/a.mp3"), Some(("/m".to_string(), "a".to_string())));
    assert_eq!(group_key("/m/_used/a.mp3"), None);
    assert_eq!(group_key("/m/a.txt"), None);
    let paths: Vec<String> = ["/m/a.mp3", "/m/b.mp3", "/m/a.flac", "/m/_used/a.mp3", "/m/c.txt", "/n/a.ogg"]
        .iter()
        .map(|s| s.to_string())
        .collect();
    let groups = group_audio_files(&paths);
    assert_eq!(groups.len(), 3);
    assert_eq!((groups[0].parent.as_str(), groups[0].stem.as_str()), ("/m", "a"));
    assert_eq!(groups[0].audios, vec!["/m/a.mp3".to_string(), "/m/a.flac".to_string()]);
    assert_eq!((groups[1].parent.as_str(), groups[1].stem.as_str()), ("/m", "b"));
    assert_eq!((groups[2].parent.as_str(), groups[2].stem.as_str()), ("/n", "a"));
}

#[test]
fn assets_collected_after_embedding() {
    let o = opts();
    assert_eq!(assets_to_move(&o, true, true, true, true, true), vec![AssetKind::Cover, AssetKind::Lyric, AssetKind::Subtitle]);
    assert_eq!(assets_to_move(&o, false, true, true, false, true), vec![AssetKind::Subtitle]);
    assert_eq!(assets_to_move(&o, true, false, true, true, true), vec![AssetKind::Cover]);
    let dry = Options { dry_run: true, ..o };
    assert!(assets_to_move(&dry, true, true, true, true, true).is_empty());
    let keep = Options { no_move: true, ..o };
    assert!(assets_to_move(&keep, true, true, true, true, true).is_empty());
    assert_eq!(AssetKind::Cover.label(), "cover");
    assert_eq!(AssetKind::Lyric.label(), "lrc");
    assert_eq!(AssetKind::Subtitle.label(), "srt");
}

#[test]
fn embed_decisions() {
    assert!(wants_cover(false, false));
    assert!(!wants_cover(true, false));
    assert!(wants_cover(true, true));
    assert_eq!(cover_write(true, 0), CoverWrite::Skip);
    assert_eq!(cover_write(true, 10), CoverWrite::Replace);
    assert_eq!(cover_write(false, 10), CoverWrite::Add);
    assert_eq!(lyric_source(true, true), LyricSource::Lrc);
    assert_eq!(lyric_source(false, true), LyricSource::Srt);
    assert_eq!(lyric_source(false, false), LyricSource::NoLyrics);
    assert!(wants_lyrics(false, false, 5));
    assert!(!wants_lyrics(true, false, 5));
    assert!(wants_lyrics(true, true, 5));
    assert!(!wants_lyrics(false, true, 0));
    assert_eq!(srt_lyrics("1\n00:00:01,500 --> 00:00:02,000\nHello\n"), Some("[00:01.50]Hello\n".to_string()));
    assert_eq!(srt_lyrics("no blocks"), None);
}

#[test]
fn counters() {
    let mut s = Stats::default();
    record_no_assets(&mut s, 2);
    record_skipped_group(&mut s, 3);
    record_embed(&mut s, EmbedResult { cover_embedded: true, ..EmbedResult::default() });
    record_embed(&mut s, EmbedResult::default());
    record_relocation(&mut s, &RelocateOutcome::Moved("x".into()));
    record_relocation(&mut s, &RelocateOutcome::Deduped("y".into()));
    record_relocation(&mut s, &RelocateOutcome::AlreadyInUsed);
    assert_eq!(s.unchanged, 6);
    assert_eq!(s.groups_skipped, 1);
    assert_eq!(s.modified, 1);
    assert_eq!(s.assets_moved, 1);
    assert_eq!(s.assets_deduped, 1);
}

#[test]
fn text_decoding() {
    assert_eq!(decode_text(b"\xEF\xBB\xBFhello"), "hello");
    assert_eq!(decode_text(b"\xFF\xFEh\x00i\x00"), "hi");
    assert_eq!(decode_text(b"\xFE\xFF\x00h\x00i"), "hi");
    assert_eq!(decode_text("plain 文字".as_bytes()), "plain 文字");
    // GBK bytes of 中文 are not valid UTF-8 and decode as GB18030
    assert_eq!(decode_text(b"\xD6\xD0\xCE\xC4"), "中文");
}

#[test]
fn all_same_compares_every_fingerprint() {
    assert!(all_same(&vec![]));
    assert!(all_same(&vec![7]));
    assert!(all_same(&vec![7, 7, 7]));
    assert!(!all_same(&vec![7, 7, 8]));
    assert!(!all_same(&vec![1, 7, 7]));
}
