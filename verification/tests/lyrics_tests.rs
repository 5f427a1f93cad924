use netease_music_api::lyrics::{merge_bilingual_lrc, split_lrc_line};
use netease_music_api::srt::{parse_start, to_lrc};

fn pair(a: &str, b: &str) -> Option<(String, String)> {
    Some((a.to_string(), b.to_string()))
}

#[test]
fn merge_returns_original_when_no_translation() {
    let lyric = "[00:01.00]hello\n[00:02.00]world\n";
    assert_eq!(merge_bilingual_lrc(lyric, ""), lyric);
    assert_eq!(merge_bilingual_lrc(lyric, "   \n  "), lyric);
}

#[test]
fn merge_returns_empty_when_no_lyric() {
    assert!(merge_bilingual_lrc("", "[00:01.00]翻译").is_empty());
}

#[test]
fn merge_interleaves_matching_timestamps() {
    let lyric = "[00:01.00]Hello\n[00:02.00]World\n";
    let tlyric = "[00:01.00]你好\n[00:02.00]世界\n";
    let merged = merge_bilingual_lrc(lyric, tlyric);
    assert_eq!(merged, "[00:01.00]Hello\n[00:01.00]你好\n[00:02.00]World\n[00:02.00]世界\n");
}

#[test]
fn merge_skips_unmatched_translation_lines() {
    let lyric = "[00:01.00]Hello\n[00:02.00]World\n";
    let tlyric = "[00:01.00]你好\n[00:99.00]孤儿翻译\n";
    let merged = merge_bilingual_lrc(lyric, tlyric);
    assert_eq!(merged, "[00:01.00]Hello\n[00:01.00]你好\n[00:02.00]World\n");
}

#[test]
fn merge_preserves_metadata_lines_unchanged() {
    let lyric = "[ti:Title]\n[ar:Artist]\n[00:01.00]Hello\n";
    let tlyric = "[ti:标题]\n[00:01.00]你好\n";
    let merged = merge_bilingual_lrc(lyric, tlyric);
    assert_eq!(merged, "[ti:Title]\n[ar:Artist]\n[00:01.00]Hello\n[00:01.00]你好\n");
}

#[test]
fn merge_later_translation_wins_and_blank_ignored() {
    let lyric = "[00:01.00]A\r\n[00:02.00]B";
    let tlyric = "[00:01.00]x\n[00:01.00]y\n[00:02.00]   \n";
    assert_eq!(merge_bilingual_lrc(lyric, tlyric), "[00:01.00]A\n[00:01.00]y\n[00:02.00]B\n");
}

#[test]
fn split_lrc_line_recognizes_timestamps() {
    assert_eq!(split_lrc_line("[00:12.34]hello"), pair("00:12.34", "hello"));
    assert_eq!(split_lrc_line("  [01:23.456]世界"), pair("01:23.456", "世界"));
}

#[test]
fn split_lrc_line_rejects_metadata_and_garbage() {
    assert_eq!(split_lrc_line("[ti:Title]"), None);
    assert_eq!(split_lrc_line("[ar:Artist]"), None);
    assert_eq!(split_lrc_line("no bracket"), None);
    assert_eq!(split_lrc_line(""), None);
    assert_eq!(split_lrc_line("[]x"), None);
    assert_eq!(split_lrc_line("[12"), None);
}

#[test]
fn srt_blocks_become_lrc_lines() {
    let srt = "1\r\n00:00:01,500 --> 00:00:03,000\r\nHello\r\nworld\r\n\r\n2\r\n00:01:02,070 --> 00:01:04,000\r\nSecond\r\n";
    assert_eq!(to_lrc(srt), "[00:01.50]Hello world\n[01:02.07]Second\n");
}

#[test]
fn srt_hours_fold_into_minutes_and_bad_blocks_skip() {
    let srt = "1\n01:02:03,456 --> x\ntext\n\n2\nxx:yy --> zz\nskipped\n\n";
    assert_eq!(to_lrc(srt), "[62:03.45]text\n");
    assert_eq!(to_lrc(""), "");
    assert_eq!(to_lrc("no blocks here\n"), "");
}

#[test]
fn srt_parse_start_fields() {
    assert_eq!(parse_start("00:00:01,500 --> 00:00:02,000"), Some((0, 1, 50)));
    assert_eq!(parse_start(" 1:2:3.9 -->"), Some((62, 3, 0)));
    assert_eq!(parse_start("00:01 --> 00:02"), None);
    assert_eq!(parse_start("+1:02:03,004-->"), Some((62, 3, 0)));
}
