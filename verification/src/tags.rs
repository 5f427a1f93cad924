//! Tags written into downloaded songs: which files get tags, and the
//! decisions around writing them.

use vstd::prelude::*;

use crate::scan::{lower_extension, TagKind};

verus! {

/// The tag format of a downloaded file by its extension (case-insensitive):
/// only mp3, flac and m4a files are tagged.
pub open spec fn download_tag_kind_of(ext: Seq<char>) -> Option<TagKind> {
    if ext == "mp3"@ {
        Some(TagKind::Id3v2)
    } else if ext == "flac"@ {
        Some(TagKind::VorbisComments)
    } else if ext == "m4a"@ {
        Some(TagKind::Mp4Ilst)
    } else {
        None
    }
}

/// The tag format of a downloaded file, if it is tagged.
pub fn download_tag_kind(file_path: &str) -> (r: Option<TagKind>)
    ensures
        r == download_tag_kind_of(lower_extension(file_path@)),
{
    let ext = crate::scan::path_lower_extension(file_path);
    if crate::scan::chars_eq(&ext, "mp3") {
        Some(TagKind::Id3v2)
    } else if crate::scan::chars_eq(&ext, "flac") {
        Some(TagKind::VorbisComments)
    } else if crate::scan::chars_eq(&ext, "m4a") {
        Some(TagKind::Mp4Ilst)
    } else {
        None
    }
}

/// The track number written into the tag: only a positive one.
pub fn track_tag(track_number: i64) -> (r: Option<u32>)
    ensures
        track_number > 0 ==> r == Some(track_number as u32),
        track_number <= 0 ==> r is None,
{
    if track_number > 0 {
        Some(track_number as u32)
    } else {
        None
    }
}

/// Whether a non-empty cover image goes into the tag.
pub fn embeds_cover(cover_len: Option<usize>) -> (r: bool)
    ensures
        r == (cover_len matches Some(n) && n > 0),
{
    match cover_len {
        Some(n) => n > 0,
        None => false,
    }
}

/// After a failed save, whether to save again without the cover: only when
/// a cover was given.
pub fn retry_without_cover(save_failed: bool, cover_given: bool) -> (r: bool)
    ensures
        r == (save_failed && cover_given),
{
    save_failed && cover_given
}

} // verus!
