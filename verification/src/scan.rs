//! Embedding cover art and lyrics found next to audio files: which files are
//! audio, how files are grouped by stem, what a run counts, which sidecar
//! files are collected afterwards, and where a collected file goes.

use vstd::prelude::*;
use vstd::utf8::{decode_utf8, valid_utf8};

use crate::paths::{
    components_spec, extension_spec, file_stem_spec, join_spec, parent_spec, path_components,
    path_eq, path_eq_spec, path_extension, path_file_stem, path_join, path_parent,
    path_strip_prefix, strip_prefix_spec,
};
use crate::srt::{srt_to_lrc, to_lrc};
use crate::text::{
    chars_of, decimal_padded, parse_u64, parse_u64_spec, push_decimal_padded, push_str,
    string_from_range, trim, trim_range,
};

verus! {

/// Options of a scan.
#[derive(Debug, Clone, Copy, PartialEq, Eq)]
pub struct Options {
    /// Descend into subdirectories.
    pub recursive: bool,
    /// Overwrite cover art and lyrics already in a tag.
    pub force: bool,
    /// Report only: write no tag and move no file.
    pub dry_run: bool,
    /// Leave used cover and lyric files in place.
    pub no_move: bool,
    /// Embed into every file of a group of differing files without asking.
    pub assume_yes: bool,
}

/// Counters of a scan.
#[derive(Debug, Clone, Copy, PartialEq, Eq)]
pub struct Stats {
    pub scanned: usize,
    pub modified: usize,
    pub unchanged: usize,
    pub errored: usize,
    pub assets_moved: usize,
    pub assets_deduped: usize,
    pub groups_skipped: usize,
}

impl Default for Stats {
    fn default() -> (s: Self)
        ensures
            s == (Stats {
                scanned: 0,
                modified: 0,
                unchanged: 0,
                errored: 0,
                assets_moved: 0,
                assets_deduped: 0,
                groups_skipped: 0,
            }),
    {
        Stats {
            scanned: 0,
            modified: 0,
            unchanged: 0,
            errored: 0,
            assets_moved: 0,
            assets_deduped: 0,
            groups_skipped: 0,
        }
    }
}

/// What embedding did to one audio file.
#[derive(Debug, Clone, Copy, PartialEq, Eq, Default)]
pub struct EmbedResult {
    /// Cover art was written this time.
    pub cover_embedded: bool,
    /// Lyrics were written this time.
    pub lyrics_embedded: bool,
    /// The tag holds cover art afterwards (written now or before).
    pub cover_present: bool,
    /// The tag holds lyrics afterwards (written now or before).
    pub lyrics_present: bool,
}

impl EmbedResult {
    /// Whether the tag was changed.
    pub fn changed(self) -> (r: bool)
        ensures
            r == (self.cover_embedded || self.lyrics_embedded),
    {
        self.cover_embedded || self.lyrics_embedded
    }
}

/// The label printed for a change.
pub fn change_label(r: EmbedResult) -> (s: &'static str)
    ensures
        r.cover_embedded && r.lyrics_embedded ==> s@ == "+ cover + lyrics"@,
        r.cover_embedded && !r.lyrics_embedded ==> s@ == "+ cover"@,
        !r.cover_embedded && r.lyrics_embedded ==> s@ == "+ lyrics"@,
        !r.cover_embedded && !r.lyrics_embedded ==> s@ == ""@,
{
    if r.cover_embedded && r.lyrics_embedded {
        "+ cover + lyrics"
    } else if r.cover_embedded {
        "+ cover"
    } else if r.lyrics_embedded {
        "+ lyrics"
    } else {
        ""
    }
}

/// Updates the counters after one audio file of a group was embedded into:
/// a changed tag counts as modified, an unchanged one as unchanged.
pub fn record_embed(stats: &mut Stats, r: EmbedResult)
    requires
        old(stats).modified < usize::MAX,
        old(stats).unchanged < usize::MAX,
    ensures
        r.cover_embedded || r.lyrics_embedded ==> *final(stats) == (Stats {
            modified: (old(stats).modified + 1) as usize,
            ..*old(stats)
        }),
        !(r.cover_embedded || r.lyrics_embedded) ==> *final(stats) == (Stats {
            unchanged: (old(stats).unchanged + 1) as usize,
            ..*old(stats)
        }),
{
    if r.changed() {
        stats.modified = stats.modified + 1;
    } else {
        stats.unchanged = stats.unchanged + 1;
    }
}

/// Tag formats the embedder writes.
#[derive(Debug, Clone, Copy, PartialEq, Eq)]
pub enum TagKind {
    /// ID3v2 (mp3, wav, aiff).
    Id3v2,
    /// Vorbis comments (flac, ogg, opus).
    VorbisComments,
    /// MP4 ilst atoms (m4a, mp4).
    Mp4Ilst,
}

/// ASCII lowercase of a character; other characters are unchanged.
pub open spec fn ascii_lower(c: char) -> char {
    if 'A' <= c <= 'Z' {
        ((c as u32) + 32) as char
    } else {
        c
    }
}

/// ASCII lowercase of a text.
pub open spec fn ascii_lower_text(s: Seq<char>) -> Seq<char> {
    s.map_values(|c: char| ascii_lower(c))
}

fn lower_char(c: char) -> (r: char)
    ensures
        r == ascii_lower(c),
{
    if 'A' <= c && c <= 'Z' {
        let b: u8 = c as u8;
        (b + 32) as char
    } else {
        c
    }
}

fn lower_text(s: &str) -> (r: Vec<char>)
    ensures
        r@ == ascii_lower_text(s@),
{
    let cs = chars_of(s);
    let mut out: Vec<char> = Vec::new();
    let mut i: usize = 0;
    while i < cs.len()
        invariant
            cs@ == s@,
            i <= cs.len(),
            out@ == ascii_lower_text(s@.subrange(0, i as int)),
        decreases cs.len() - i,
    {
        out.push(lower_char(cs[i]));
        proof {
            assert(s@.subrange(0, i + 1) =~= s@.subrange(0, i as int).push(cs@[i as int]));
        }
        i += 1;
        proof {
            assert(out@ =~= ascii_lower_text(s@.subrange(0, i as int)));
        }
    }
    proof {
        assert(s@.subrange(0, cs.len() as int) =~= s@);
    }
    out
}

pub(crate) fn chars_eq(a: &Vec<char>, b: &str) -> (r: bool)
    ensures
        r == (a@ == b@),
{
    let bc = chars_of(b);
    if a.len() != bc.len() {
        return false;
    }
    let mut i: usize = 0;
    while i < a.len()
        invariant
            bc@ == b@,
            a@.len() == bc@.len(),
            i <= a.len(),
            forall|k: int| 0 <= k < i ==> a@[k] == bc@[k],
        decreases a.len() - i,
    {
        if a[i] != bc[i] {
            return false;
        }
        i += 1;
    }
    proof {
        assert(a@ =~= bc@);
    }
    true
}

/// The lowercased extension of a path, empty when it has none.
pub open spec fn lower_extension(path: Seq<char>) -> Seq<char> {
    match extension_spec(path) {
        Some(e) => ascii_lower_text(e),
        None => Seq::empty(),
    }
}

/// The tag format for an extension (already lowercased).
pub open spec fn tag_kind_of(ext: Seq<char>) -> Option<TagKind> {
    if ext == "mp3"@ || ext == "wav"@ || ext == "aiff"@ || ext == "aif"@ {
        Some(TagKind::Id3v2)
    } else if ext == "flac"@ || ext == "ogg"@ || ext == "opus"@ {
        Some(TagKind::VorbisComments)
    } else if ext == "m4a"@ || ext == "mp4"@ {
        Some(TagKind::Mp4Ilst)
    } else {
        None
    }
}

pub(crate) fn path_lower_extension(path: &str) -> (r: Vec<char>)
    ensures
        r@ == lower_extension(path@),
{
    match path_extension(path) {
        Some(e) => lower_text(e.as_str()),
        None => Vec::new(),
    }
}

/// The tag format of an audio file by its extension, case-insensitively.
pub fn tag_type_for(audio_path: &str) -> (r: Option<TagKind>)
    ensures
        r == tag_kind_of(lower_extension(audio_path@)),
{
    let ext = path_lower_extension(audio_path);
    if chars_eq(&ext, "mp3") || chars_eq(&ext, "wav") || chars_eq(&ext, "aiff") || chars_eq(
        &ext,
        "aif",
    ) {
        Some(TagKind::Id3v2)
    } else if chars_eq(&ext, "flac") || chars_eq(&ext, "ogg") || chars_eq(&ext, "opus") {
        Some(TagKind::VorbisComments)
    } else if chars_eq(&ext, "m4a") || chars_eq(&ext, "mp4") {
        Some(TagKind::Mp4Ilst)
    } else {
        None
    }
}

/// Whether the embedder handles the file.
pub fn is_supported_audio(path: &str) -> (r: bool)
    ensures
        r == tag_kind_of(lower_extension(path@)).is_some(),
{
    tag_type_for(path).is_some()
}

/// Image types of cover art.
#[derive(Debug, Clone, Copy, PartialEq, Eq)]
pub enum ImageMime {
    Png,
    Jpeg,
}

/// The type of a cover image: PNG for a `.png` file (any case), else JPEG.
pub fn guess_image_mime(path: &str) -> (r: ImageMime)
    ensures
        lower_extension(path@) == "png"@ ==> r == ImageMime::Png,
        lower_extension(path@) != "png"@ ==> r == ImageMime::Jpeg,
{
    let ext = path_lower_extension(path);
    if chars_eq(&ext, "png") {
        ImageMime::Png
    } else {
        ImageMime::Jpeg
    }
}


/// Directory under the scan root where used cover and lyric files go.
pub const USED_DIR: &'static str = "_used";

/// Where a used cover or lyric file ended up.
#[derive(Debug, Clone, PartialEq, Eq)]
pub enum RelocateOutcome {
    /// It already was in the used directory: nothing moved.
    AlreadyInUsed,
    /// Moved to this path.
    Moved(String),
    /// A byte-identical copy already was at this path: the source was removed.
    Deduped(String),
}

/// Updates the counters after a used file was collected.
pub fn record_relocation(stats: &mut Stats, outcome: &RelocateOutcome)
    requires
        old(stats).assets_moved < usize::MAX,
        old(stats).assets_deduped < usize::MAX,
    ensures
        *outcome is Moved ==> *final(stats) == (Stats {
            assets_moved: (old(stats).assets_moved + 1) as usize,
            ..*old(stats)
        }),
        *outcome is Deduped ==> *final(stats) == (Stats {
            assets_deduped: (old(stats).assets_deduped + 1) as usize,
            ..*old(stats)
        }),
        *outcome is AlreadyInUsed ==> *final(stats) == *old(stats),
{
    match outcome {
        RelocateOutcome::Moved(_) => {
            stats.assets_moved = stats.assets_moved + 1;
        },
        RelocateOutcome::Deduped(_) => {
            stats.assets_deduped = stats.assets_deduped + 1;
        },
        RelocateOutcome::AlreadyInUsed => {},
    }
}

/// Characters that may not stand in a file name.
pub open spec fn illegal_name_char(c: char) -> bool {
    c == '\\' || c == '/' || c == ':' || c == '*' || c == '?' || c == '"' || c == '<' || c == '>'
        || c == '|'
}

/// A text with every illegal file-name character replaced by `_`.
pub open spec fn name_safe(s: Seq<char>) -> Seq<char> {
    s.map_values(|c: char| if illegal_name_char(c) { '_' } else { c })
}

fn sanitize_for_filename(s: &str) -> (r: Vec<char>)
    ensures
        r@ == name_safe(s@),
{
    let cs = chars_of(s);
    let mut out: Vec<char> = Vec::new();
    let mut i: usize = 0;
    while i < cs.len()
        invariant
            cs@ == s@,
            i <= cs.len(),
            out@ == name_safe(s@.subrange(0, i as int)),
        decreases cs.len() - i,
    {
        let c = cs[i];
        let d = if c == '\\' || c == '/' || c == ':' || c == '*' || c == '?' || c == '"' || c
            == '<' || c == '>' || c == '|' {
            '_'
        } else {
            c
        };
        out.push(d);
        proof {
            assert(s@.subrange(0, i + 1) =~= s@.subrange(0, i as int).push(c));
        }
        i += 1;
        proof {
            assert(out@ =~= name_safe(s@.subrange(0, i as int)));
        }
    }
    proof {
        assert(s@.subrange(0, cs.len() as int) =~= s@);
    }
    out
}

/// The directory parts joined by `-`, each made safe for a file name.
pub open spec fn label_of(parts: Seq<Seq<char>>) -> Seq<char>
    decreases parts.len(),
{
    if parts.len() == 0 {
        Seq::empty()
    } else {
        let out = label_of(parts.drop_last());
        if out.len() == 0 {
            name_safe(parts.last())
        } else {
            out + seq!['-'] + name_safe(parts.last())
        }
    }
}

/// The label of a file's directory relative to the scan root, used to tell
/// apart same-named files from different directories; none for a file
/// directly in the root or outside it.
pub open spec fn dir_label(src: Seq<char>, root: Seq<char>) -> Option<Seq<char>> {
    match parent_spec(src) {
        None => None,
        Some(p) => if path_eq_spec(p, root) {
            None
        } else {
            match strip_prefix_spec(p, root) {
                None => None,
                Some(rel) => {
                    let out = label_of(components_spec(rel));
                    if out.len() == 0 {
                        None
                    } else {
                        Some(out)
                    }
                },
            }
        },
    }
}

/// The directory label of `src` under `root`.
pub fn src_dir_label(src: &str, root: &str) -> (r: Option<String>)
    ensures
        match dir_label(src@, root@) {
            Some(l) => r matches Some(s) && s@ == l,
            None => r is None,
        },
{
    let parent = match path_parent(src) {
        Some(p) => p,
        None => return None,
    };
    if path_eq(parent.as_str(), root) {
        return None;
    }
    let rel = match path_strip_prefix(parent.as_str(), root) {
        Some(r) => r,
        None => return None,
    };
    let parts = path_components(rel.as_str());
    let ghost ps = components_spec(rel@);
    let mut out = String::new();
    let mut i: usize = 0;
    while i < parts.len()
        invariant
            parts@.len() == ps.len(),
            forall|k: int| 0 <= k < parts@.len() ==> (#[trigger] parts@[k])@ == ps[k],
            i <= parts.len(),
            out@ == label_of(ps.subrange(0, i as int)),
        decreases parts.len() - i,
    {
        let safe = sanitize_for_filename(parts[i].as_str());
        let ghost before = out@;
        if out.unicode_len() > 0 {
            out.push('-');
        }
        crate::text::push_all(&mut out, &safe);
        proof {
            let sub = ps.subrange(0, i + 1);
            assert(sub.drop_last() =~= ps.subrange(0, i as int));
            assert(sub.last() == ps[i as int]);
        }
        i += 1;
    }
    proof {
        assert(ps.subrange(0, parts@.len() as int) =~= ps);
    }
    if out.unicode_len() == 0 {
        None
    } else {
        Some(out)
    }
}

/// The file name `<stem>[-NN][.<ext>]` of a collected file.
pub open spec fn build_name(stem: Seq<char>, suffix: Option<u32>, ext: Seq<char>) -> Seq<char> {
    let base = match suffix {
        None => stem,
        Some(n) => stem + seq!['-'] + decimal_padded(n as nat, 2),
    };
    if ext.len() == 0 {
        base
    } else {
        base + seq!['.'] + ext
    }
}

/// `<dir>/<stem>[-NN][.<ext>]`.
pub fn build_path(dir: &str, stem: &str, suffix: Option<u32>, ext: &str) -> (r: String)
    ensures
        r@ == join_spec(dir@, build_name(stem@, suffix, ext@)),
{
    let mut name = String::new();
    push_str(&mut name, stem);
    match suffix {
        None => {},
        Some(n) => {
            name.push('-');
            push_decimal_padded(&mut name, n as u64, 2);
        },
    }
    if ext.unicode_len() > 0 {
        name.push('.');
        push_str(&mut name, ext);
    }
    proof {
        assert(name@ =~= build_name(stem@, suffix, ext@));
    }
    path_join(dir, name.as_str())
}

/// The `i`-th file name tried for a collected file: `<stem>.<ext>`, then
/// `<label>__<stem>.<ext>` when the file has a directory label, then
/// numbered names `-01` to `-999` on the labelled stem (or the plain stem).
pub open spec fn candidate_name(stem: Seq<char>, label: Option<Seq<char>>, ext: Seq<char>, i: nat) -> Option<Seq<char>> {
    let prefixed = match label {
        Some(l) => Some(l + seq!['_', '_'] + stem),
        None => None,
    };
    let first_numbered: nat = if prefixed is Some { 2 } else { 1 };
    let numeric_stem = match prefixed {
        Some(p) => p,
        None => stem,
    };
    if i == 0 {
        Some(build_name(stem, None, ext))
    } else if i == 1 && prefixed is Some {
        Some(build_name(prefixed->0, None, ext))
    } else if i < first_numbered + 999 {
        Some(build_name(numeric_stem, Some((i - first_numbered + 1) as u32), ext))
    } else {
        None
    }
}

/// The `i`-th path tried in `used_dir` for a collected file; `None` once the
/// candidates are exhausted.
pub fn relocation_target(used_dir: &str, stem: &str, label: &Option<String>, ext: &str, i: usize) -> (r: Option<String>)
    ensures
        match candidate_name(stem@, match label { Some(l) => Some(l@), None => None }, ext@, i as nat) {
            Some(n) => r matches Some(p) && p@ == join_spec(used_dir@, n),
            None => r is None,
        },
{
    let ghost lv = match label {
        Some(l) => Some(l@),
        None => None,
    };
    let prefixed: Option<String> = match label {
        Some(l) => {
            let mut p = String::new();
            push_str(&mut p, l.as_str());
            p.push('_');
            p.push('_');
            push_str(&mut p, stem);
            proof {
                assert(p@ =~= l@ + seq!['_', '_'] + stem@);
            }
            Some(p)
        },
        None => None,
    };
    assert(match label {
        Some(l) => prefixed matches Some(p) && p@ == l@ + seq!['_', '_'] + stem@,
        None => prefixed is None,
    });
    let first_numbered: usize = if prefixed.is_some() { 2 } else { 1 };
    if i == 0 {
        return Some(build_path(used_dir, stem, None, ext));
    }
    match &prefixed {
        Some(p) => {
            if i == 1 {
                return Some(build_path(used_dir, p.as_str(), None, ext));
            }
        },
        None => {},
    }
    if i < first_numbered + 999 {
        let n: u32 = (i - first_numbered + 1) as u32;
        match &prefixed {
            Some(p) => Some(build_path(used_dir, p.as_str(), Some(n), ext)),
            None => Some(build_path(used_dir, stem, Some(n), ext)),
        }
    } else {
        None
    }
}

/// The used directory of a scan root.
pub fn used_dir_for(root: &str) -> (r: String)
    ensures
        r@ == join_spec(root@, USED_DIR@),
{
    path_join(root, USED_DIR)
}

/// Whether `src` already sits directly in the used directory of `root`.
pub fn already_in_used(src: &str, root: &str) -> (r: bool)
    ensures
        r == match parent_spec(src@) {
            Some(p) => path_eq_spec(p, join_spec(root@, USED_DIR@)),
            None => false,
        },
{
    let used = used_dir_for(root);
    match path_parent(src) {
        Some(p) => path_eq(p.as_str(), used.as_str()),
        None => false,
    }
}

/// Message when every candidate name for a collected file is taken.
pub fn too_many_conflicts(used_dir_shown: &str, stem: &str) -> (r: String)
    ensures
        r@ == "too many conflicts under "@ + used_dir_shown@ + " for stem '"@ + stem@ + "'"@,
{
    let mut m = String::new();
    push_str(&mut m, "too many conflicts under ");
    push_str(&mut m, used_dir_shown);
    push_str(&mut m, " for stem '");
    push_str(&mut m, stem);
    push_str(&mut m, "'");
    m
}

/// The stem and extension a collected file keeps: the stem is required,
/// a missing extension is empty.
pub fn relocation_parts(src: &str) -> (r: Option<(String, String)>)
    ensures
        match file_stem_spec(src@) {
            None => r is None,
            Some(stem) => r matches Some((s, e)) && s@ == stem && e@ == match extension_spec(
                src@,
            ) {
                Some(x) => x,
                None => Seq::empty(),
            },
        },
{
    let stem = match path_file_stem(src) {
        Some(s) => s,
        None => return None,
    };
    let ext = match path_extension(src) {
        Some(e) => e,
        None => String::new(),
    };
    Some((stem, ext))
}


/// The pieces of `s` between commas, as `str::split(',')` gives them.
pub open spec fn split_commas(s: Seq<char>) -> Seq<Seq<char>>
    decreases s.len(),
{
    if s.len() == 0 {
        seq![Seq::empty()]
    } else {
        let prev = split_commas(s.drop_last());
        if s.last() == ',' {
            prev.push(Seq::empty())
        } else {
            prev.update(prev.len() - 1, prev.last().push(s.last()))
        }
    }
}

proof fn lemma_split_nonempty(s: Seq<char>)
    ensures
        split_commas(s).len() >= 1,
    decreases s.len(),
{
    if s.len() > 0 {
        lemma_split_nonempty(s.drop_last());
    }
}

/// One token of a choice: blank tokens are skipped, a number from 1 to `n`
/// picks that file (kept as a 0-based index), anything else is invalid.
pub open spec fn pick_step(acc: Result<Seq<usize>, Seq<char>>, tok: Seq<char>, n: nat) -> Result<Seq<usize>, Seq<char>> {
    match acc {
        Err(t) => Err(t),
        Ok(ps) => {
            let t = trim(tok);
            if t.len() == 0 {
                Ok(ps)
            } else {
                match parse_u64_spec(t) {
                    Some(v) => if 1 <= v <= n {
                        Ok(ps.push((v - 1) as usize))
                    } else {
                        Err(t)
                    },
                    None => Err(t),
                }
            }
        },
    }
}

/// The picks of a list of tokens, or the first invalid token.
pub open spec fn picks_of(toks: Seq<Seq<char>>, n: nat) -> Result<Seq<usize>, Seq<char>>
    decreases toks.len(),
{
    if toks.len() == 0 {
        Ok(Seq::empty())
    } else {
        pick_step(picks_of(toks.drop_last(), n), toks.last(), n)
    }
}

proof fn lemma_picks_err_sticks(toks: Seq<Seq<char>>, more: Seq<Seq<char>>, n: nat)
    requires
        picks_of(toks, n) is Err,
    ensures
        picks_of(toks + more, n) == picks_of(toks, n),
    decreases more.len(),
{
    if more.len() == 0 {
        assert(toks + more =~= toks);
    } else {
        lemma_picks_err_sticks(toks, more.drop_last(), n);
        assert((toks + more).drop_last() =~= toks + more.drop_last());
    }
}

proof fn lemma_split_prefix(s: Seq<char>, i: nat, j: nat)
    requires
        i <= j <= s.len(),
    ensures
        exists|rest: Seq<Seq<char>>|
            rest.len() >= 1 && split_commas(s.subrange(0, j as int)) == split_commas(
                s.subrange(0, i as int),
            ).drop_last() + rest,
    decreases j - i,
{
    let d = split_commas(s.subrange(0, i as int)).drop_last();
    lemma_split_nonempty(s.subrange(0, i as int));
    if j == i {
        let sp = split_commas(s.subrange(0, i as int));
        let rest = seq![sp.last()];
        assert(sp =~= d + rest);
    } else {
        lemma_split_prefix(s, i, (j - 1) as nat);
        let rest = choose|rest: Seq<Seq<char>>|
            rest.len() >= 1 && split_commas(s.subrange(0, j - 1)) == d + rest;
        let t = s.subrange(0, j as int);
        assert(t.drop_last() =~= s.subrange(0, j - 1));
        if t.last() == ',' {
            assert(split_commas(t) =~= d + rest.push(Seq::empty()));
        } else {
            let prev = d + rest;
            let r2 = rest.update(rest.len() - 1, rest.last().push(t.last()));
            assert(prev.update(prev.len() - 1, prev.last().push(t.last())) =~= d + r2);
        }
    }
}

/// Every index picked by a choice names one of the `n` files.
pub proof fn lemma_picks_in_range(toks: Seq<Seq<char>>, n: nat)
    ensures
        picks_of(toks, n) matches Ok(ps) ==> forall|i: int| 0 <= i < ps.len() ==> (#[trigger] ps[i]) < n,
    decreases toks.len(),
{
    if toks.len() > 0 {
        lemma_picks_in_range(toks.drop_last(), n);
    }
}

/// The answer to "embed into which?" for a group of `n` files.
#[derive(Debug, Clone, PartialEq, Eq)]
pub enum Choice {
    /// Embed into every file.
    All,
    /// Skip the group.
    Skip,
    /// Embed into these files (0-based indices, in the order given).
    Picks(Vec<usize>),
    /// This token is not a file number: the group is skipped.
    Invalid(String),
}

/// Whether `s` is the one letter `c` (lowercase) in either case.
pub open spec fn is_letter(s: Seq<char>, c: char) -> bool {
    s.len() == 1 && ascii_lower(s[0]) == c
}

/// Reads a trimmed answer: empty or `a` is all, `s` is skip, otherwise a
/// comma-separated list of file numbers from 1 to `n`; an answer that picks
/// nothing skips the group.
pub fn parse_choice(trimmed: &str, n: usize) -> (r: Choice)
    ensures
        trimmed@.len() == 0 || is_letter(trimmed@, 'a') ==> r == Choice::All,
        !(trimmed@.len() == 0 || is_letter(trimmed@, 'a')) && is_letter(trimmed@, 's') ==> r
            == Choice::Skip,
        !(trimmed@.len() == 0 || is_letter(trimmed@, 'a')) && !is_letter(trimmed@, 's') ==> match picks_of(
            split_commas(trimmed@),
            n as nat,
        ) {
            Err(t) => (r matches Choice::Invalid(s) && s@ == t),
            Ok(ps) => if ps.len() == 0 {
                r == Choice::Skip
            } else {
                (r matches Choice::Picks(v) && v@ == ps)
            },
        },
{
    let cs = chars_of(trimmed);
    if cs.len() == 0 || (cs.len() == 1 && (cs[0] == 'a' || cs[0] == 'A')) {
        return Choice::All;
    }
    if cs.len() == 1 && (cs[0] == 's' || cs[0] == 'S') {
        return Choice::Skip;
    }
    let ghost s = cs@;
    let mut picks: Vec<usize> = Vec::new();
    let mut start: usize = 0;
    let mut i: usize = 0;
    let ghost mut done: Seq<Seq<char>> = Seq::empty();
    proof {
        assert(s.subrange(0, 0) =~= Seq::<char>::empty());
        assert(done.push(s.subrange(0, 0)) =~= split_commas(s.subrange(0, 0)));
    }
    while i < cs.len()
        invariant
            cs@ == s,
            s == trimmed@,
            start <= i <= cs.len(),
            split_commas(s.subrange(0, i as int)) == done.push(s.subrange(start as int, i as int)),
            picks_of(done, n as nat) == Ok::<Seq<usize>, Seq<char>>(picks@),
        decreases cs.len() - i,
    {
        let ghost prev = s.subrange(0, i as int);
        assert(s.subrange(0, i + 1).drop_last() =~= prev);
        if cs[i] == ',' {
            let (lo, hi) = trim_range(&cs, start, i);
            let ghost tok = s.subrange(start as int, i as int);
            assert(done.push(tok).drop_last() =~= done);
            proof {
                lemma_split_prefix(s, (i + 1) as nat, s.len());
                assert(s.subrange(0, s.len() as int) =~= s);
                assert(split_commas(s.subrange(0, i + 1)) == done.push(tok).push(Seq::empty())) by {
                    assert(s.subrange(0, i + 1).last() == ',');
                }
                assert(split_commas(s.subrange(0, i + 1)).drop_last() =~= done.push(tok));
                let rest = choose|rest: Seq<Seq<char>>|
                    rest.len() >= 1 && split_commas(s.subrange(0, s.len() as int)) == split_commas(
                        s.subrange(0, i + 1),
                    ).drop_last() + rest;
                if picks_of(done.push(tok), n as nat) is Err {
                    lemma_picks_err_sticks(done.push(tok), rest, n as nat);
                }
            }
            if lo < hi {
                match parse_u64(&cs, lo, hi) {
                    Some(v) => {
                        if 1 <= v && v <= n as u64 {
                            picks.push((v - 1) as usize);
                        } else {
                            return Choice::Invalid(string_from_range(&cs, lo, hi));
                        }
                    },
                    None => {
                        return Choice::Invalid(string_from_range(&cs, lo, hi));
                    },
                }
            }
            proof {
                done = done.push(tok);
                assert(s.subrange(i + 1, i + 1) =~= Seq::<char>::empty());
            }
            start = i + 1;
        } else {
            proof {
                assert(s.subrange(start as int, i + 1) =~= s.subrange(start as int, i as int).push(
                    s[i as int],
                ));
                let sp = done.push(s.subrange(start as int, i as int));
                assert(sp.update(sp.len() - 1, sp.last().push(s[i as int])) =~= done.push(
                    s.subrange(start as int, i + 1),
                ));
            }
        }
        i += 1;
    }
    proof {
        assert(s.subrange(0, cs.len() as int) =~= s);
    }
    let (lo, hi) = trim_range(&cs, start, cs.len());
    let ghost tok = s.subrange(start as int, cs.len() as int);
    assert(done.push(tok).drop_last() =~= done);
    if lo < hi {
        match parse_u64(&cs, lo, hi) {
            Some(v) => {
                if 1 <= v && v <= n as u64 {
                    picks.push((v - 1) as usize);
                } else {
                    return Choice::Invalid(string_from_range(&cs, lo, hi));
                }
            },
            None => {
                return Choice::Invalid(string_from_range(&cs, lo, hi));
            },
        }
    }
    if picks.len() == 0 {
        Choice::Skip
    } else {
        Choice::Picks(picks)
    }
}

/// What to do about a group of several differing files before asking:
/// `--yes` embeds into all of them; without a terminal the group is skipped
/// (lyrics of one song must not go into another); otherwise ask.
#[derive(Debug, Clone, Copy, PartialEq, Eq)]
pub enum PromptStart {
    All,
    Skip,
    Ask,
}

/// Chooses how a group of differing files is handled before prompting.
pub fn prompt_start(assume_yes: bool, stdin_is_terminal: bool) -> (r: PromptStart)
    ensures
        assume_yes ==> r == PromptStart::All,
        !assume_yes && !stdin_is_terminal ==> r == PromptStart::Skip,
        !assume_yes && stdin_is_terminal ==> r == PromptStart::Ask,
{
    if assume_yes {
        PromptStart::All
    } else if !stdin_is_terminal {
        PromptStart::Skip
    } else {
        PromptStart::Ask
    }
}

/// Whether the user must choose the files of a group: only when it has
/// several files that are not all byte-identical.
pub fn needs_choice(n_audios: usize, identical: bool) -> (r: bool)
    ensures
        r == (n_audios != 1 && !identical),
{
    n_audios != 1 && !identical
}

/// Whether all the given fingerprints (sizes or content hashes of copies)
/// are equal; fewer than two are trivially equal.
pub fn all_same(v: &Vec<u64>) -> (r: bool)
    ensures
        r == (forall|i: int, j: int| 0 <= i < v.len() && 0 <= j < v.len() ==> v[i] == v[j]),
{
    if v.len() < 2 {
        return true;
    }
    let first = v[0];
    let mut k: usize = 1;
    while k < v.len()
        invariant
            1 <= k <= v.len(),
            first == v[0],
            forall|i: int| 0 <= i < k ==> #[trigger] v[i] == first,
        decreases v.len() - k,
    {
        if v[k] != first {
            assert(!(v[k as int] == v[0]));
            return false;
        }
        k += 1;
    }
    assert forall|i: int, j: int| 0 <= i < v.len() && 0 <= j < v.len() implies v[i] == v[j] by {
        assert(v[i] == first);
        assert(v[j] == first);
    }
    true
}

/// The three kinds of sidecar file.
#[derive(Debug, Clone, Copy, PartialEq, Eq)]
pub enum AssetKind {
    Cover,
    Lyric,
    Subtitle,
}

impl AssetKind {
    /// The word printed for the kind.
    pub fn label(self) -> (s: &'static str)
        ensures
            self == AssetKind::Cover ==> s@ == "cover"@,
            self == AssetKind::Lyric ==> s@ == "lrc"@,
            self == AssetKind::Subtitle ==> s@ == "srt"@,
    {
        match self {
            AssetKind::Cover => "cover",
            AssetKind::Lyric => "lrc",
            AssetKind::Subtitle => "srt",
        }
    }
}

/// The sidecar files collected after a group was embedded, in order: the
/// cover when some file of the group now holds cover art, the lyric and
/// subtitle files when some file now holds lyrics; nothing on a dry run or
/// with `--no-move`.
pub open spec fn assets_to_move_spec(
    opts: Options,
    any_cover_present: bool,
    any_lyric_present: bool,
    has_cover: bool,
    has_lyric: bool,
    has_srt: bool,
) -> Seq<AssetKind> {
    if opts.no_move || opts.dry_run {
        Seq::empty()
    } else {
        (if any_cover_present && has_cover {
            seq![AssetKind::Cover]
        } else {
            Seq::empty()
        }) + (if any_lyric_present && has_lyric {
            seq![AssetKind::Lyric]
        } else {
            Seq::empty()
        }) + (if any_lyric_present && has_srt {
            seq![AssetKind::Subtitle]
        } else {
            Seq::empty()
        })
    }
}

/// The sidecar files to collect after a group was embedded.
pub fn assets_to_move(
    opts: &Options,
    any_cover_present: bool,
    any_lyric_present: bool,
    has_cover: bool,
    has_lyric: bool,
    has_srt: bool,
) -> (r: Vec<AssetKind>)
    ensures
        r@ == assets_to_move_spec(
            *opts,
            any_cover_present,
            any_lyric_present,
            has_cover,
            has_lyric,
            has_srt,
        ),
{
    let mut out: Vec<AssetKind> = Vec::new();
    if opts.no_move || opts.dry_run {
        return out;
    }
    if any_cover_present && has_cover {
        out.push(AssetKind::Cover);
    }
    if any_lyric_present && has_lyric {
        out.push(AssetKind::Lyric);
    }
    if any_lyric_present && has_srt {
        out.push(AssetKind::Subtitle);
    }
    proof {
        assert(out@ =~= assets_to_move_spec(
            *opts,
            any_cover_present,
            any_lyric_present,
            has_cover,
            has_lyric,
            has_srt,
        ));
    }
    out
}

/// Counts a group without any sidecar file: all its files are unchanged.
pub fn record_no_assets(stats: &mut Stats, n_audios: usize)
    requires
        old(stats).unchanged + n_audios <= usize::MAX,
    ensures
        *final(stats) == (Stats {
            unchanged: (old(stats).unchanged + n_audios) as usize,
            ..*old(stats)
        }),
{
    stats.unchanged = stats.unchanged + n_audios;
}

/// Counts a skipped group: one more skipped group, all its files unchanged.
pub fn record_skipped_group(stats: &mut Stats, n_audios: usize)
    requires
        old(stats).groups_skipped < usize::MAX,
        old(stats).unchanged + n_audios <= usize::MAX,
    ensures
        *final(stats) == (Stats {
            groups_skipped: (old(stats).groups_skipped + 1) as usize,
            unchanged: (old(stats).unchanged + n_audios) as usize,
            ..*old(stats)
        }),
{
    stats.groups_skipped = stats.groups_skipped + 1;
    stats.unchanged = stats.unchanged + n_audios;
}

/// Counts a file whose embedding failed.
pub fn record_error(stats: &mut Stats)
    requires
        old(stats).errored < usize::MAX,
    ensures
        *final(stats) == (Stats { errored: (old(stats).errored + 1) as usize, ..*old(stats) }),
{
    stats.errored = stats.errored + 1;
}

/// Counts a file the user did not select: it is unchanged.
pub fn record_not_selected(stats: &mut Stats)
    requires
        old(stats).unchanged < usize::MAX,
    ensures
        *final(stats) == (Stats { unchanged: (old(stats).unchanged + 1) as usize, ..*old(stats) }),
{
    stats.unchanged = stats.unchanged + 1;
}

/// Counts the files of a group as scanned.
pub fn record_scanned(stats: &mut Stats, n_audios: usize)
    requires
        old(stats).scanned + n_audios <= usize::MAX,
    ensures
        *final(stats) == (Stats { scanned: (old(stats).scanned + n_audios) as usize, ..*old(stats) }),
{
    stats.scanned = stats.scanned + n_audios;
}


/// `<parent>/<stem>.<ext>`.
pub open spec fn sibling(parent: Seq<char>, stem: Seq<char>, ext: Seq<char>) -> Seq<char> {
    join_spec(parent, stem + seq!['.'] + ext)
}

/// `<parent>/<stem>.<ext>`.
pub fn sibling_path(parent: &str, stem: &str, ext: &str) -> (r: String)
    ensures
        r@ == sibling(parent@, stem@, ext@),
{
    let mut name = String::new();
    push_str(&mut name, stem);
    name.push('.');
    push_str(&mut name, ext);
    proof {
        assert(name@ =~= stem@ + seq!['.'] + ext@);
    }
    path_join(parent, name.as_str())
}

/// Whether `p` is one of the `existing` paths.
pub open spec fn listed(existing: Seq<String>, p: Seq<char>) -> bool {
    exists|i: int| 0 <= i < existing.len() && #[trigger] existing[i]@ == p
}

fn is_listed(existing: &Vec<String>, p: &str) -> (r: bool)
    ensures
        r == listed(existing@, p@),
{
    let mut i: usize = 0;
    while i < existing.len()
        invariant
            i <= existing@.len(),
            forall|k: int| 0 <= k < i ==> (#[trigger] existing@[k])@ != p@,
        decreases existing.len() - i,
    {
        if crate::text::str_eq(existing[i].as_str(), p) {
            return true;
        }
        i += 1;
    }
    false
}

/// The cover files looked for next to audio files of a stem, in order of
/// preference: `.jpg`, `.jpeg`, `.png`.
pub fn cover_candidates(parent: &str, stem: &str) -> (r: Vec<String>)
    ensures
        r@.len() == 3,
        r@[0]@ == sibling(parent@, stem@, "jpg"@),
        r@[1]@ == sibling(parent@, stem@, "jpeg"@),
        r@[2]@ == sibling(parent@, stem@, "png"@),
{
    let mut v: Vec<String> = Vec::new();
    v.push(sibling_path(parent, stem, "jpg"));
    v.push(sibling_path(parent, stem, "jpeg"));
    v.push(sibling_path(parent, stem, "png"));
    v
}

/// The cover of a stem: the first candidate among the existing files.
pub fn find_cover(parent: &str, stem: &str, existing: &Vec<String>) -> (r: Option<String>)
    ensures
        listed(existing@, sibling(parent@, stem@, "jpg"@)) ==> (r matches Some(p) && p@ == sibling(
            parent@,
            stem@,
            "jpg"@,
        )),
        !listed(existing@, sibling(parent@, stem@, "jpg"@)) && listed(
            existing@,
            sibling(parent@, stem@, "jpeg"@),
        ) ==> (r matches Some(p) && p@ == sibling(parent@, stem@, "jpeg"@)),
        !listed(existing@, sibling(parent@, stem@, "jpg"@)) && !listed(
            existing@,
            sibling(parent@, stem@, "jpeg"@),
        ) && listed(existing@, sibling(parent@, stem@, "png"@)) ==> (r matches Some(p) && p@
            == sibling(parent@, stem@, "png"@)),
        !listed(existing@, sibling(parent@, stem@, "jpg"@)) && !listed(
            existing@,
            sibling(parent@, stem@, "jpeg"@),
        ) && !listed(existing@, sibling(parent@, stem@, "png"@)) ==> r is None,
{
    let c = cover_candidates(parent, stem);
    let mut i: usize = 0;
    while i < 3
        invariant
            c@.len() == 3,
            c@[0]@ == sibling(parent@, stem@, "jpg"@),
            c@[1]@ == sibling(parent@, stem@, "jpeg"@),
            c@[2]@ == sibling(parent@, stem@, "png"@),
            i <= 3,
            forall|k: int| 0 <= k < i ==> !listed(existing@, (#[trigger] c@[k])@),
        decreases 3 - i,
    {
        if is_listed(existing, c[i].as_str()) {
            return Some(c[i].clone());
        }
        i += 1;
    }
    None
}

/// The lyric file of a stem, `<stem>.lrc`, when it exists.
pub fn find_lyric(parent: &str, stem: &str, existing: &Vec<String>) -> (r: Option<String>)
    ensures
        listed(existing@, sibling(parent@, stem@, "lrc"@)) ==> (r matches Some(p) && p@ == sibling(
            parent@,
            stem@,
            "lrc"@,
        )),
        !listed(existing@, sibling(parent@, stem@, "lrc"@)) ==> r is None,
{
    let p = sibling_path(parent, stem, "lrc");
    if is_listed(existing, p.as_str()) {
        Some(p)
    } else {
        None
    }
}

/// The subtitle file of a stem, `<stem>.srt`, when it exists.
pub fn find_srt(parent: &str, stem: &str, existing: &Vec<String>) -> (r: Option<String>)
    ensures
        listed(existing@, sibling(parent@, stem@, "srt"@)) ==> (r matches Some(p) && p@ == sibling(
            parent@,
            stem@,
            "srt"@,
        )),
        !listed(existing@, sibling(parent@, stem@, "srt"@)) ==> r is None,
{
    let p = sibling_path(parent, stem, "srt");
    if is_listed(existing, p.as_str()) {
        Some(p)
    } else {
        None
    }
}

/// Whether some component of the path is the used directory.
pub open spec fn under_used(path: Seq<char>) -> bool {
    exists|i: int|
        0 <= i < components_spec(path).len() && #[trigger] components_spec(path)[i] == USED_DIR@
}

/// The group of an audio file found by a scan: its directory and stem.
/// Files under a used directory, files that are not audio, and files
/// without a directory or stem belong to no group.
pub open spec fn group_key_spec(path: Seq<char>) -> Option<(Seq<char>, Seq<char>)> {
    if under_used(path) || tag_kind_of(lower_extension(path)) is None {
        None
    } else {
        match (parent_spec(path), file_stem_spec(path)) {
            (Some(p), Some(s)) => Some((p, s)),
            _ => None,
        }
    }
}

/// The group of a file found by a scan.
pub fn group_key(path: &str) -> (r: Option<(String, String)>)
    ensures
        match group_key_spec(path@) {
            Some((p, s)) => r matches Some((a, b)) && a@ == p && b@ == s,
            None => r is None,
        },
{
    let comps = path_components(path);
    let ghost cs = components_spec(path@);
    let mut i: usize = 0;
    while i < comps.len()
        invariant
            cs == components_spec(path@),
            comps@.len() == cs.len(),
            forall|k: int| 0 <= k < comps@.len() ==> (#[trigger] comps@[k])@ == cs[k],
            i <= comps.len(),
            forall|k: int| 0 <= k < i ==> cs[k] != USED_DIR@,
        decreases comps.len() - i,
    {
        if crate::text::str_eq(comps[i].as_str(), USED_DIR) {
            proof {
                assert(cs[i as int] == USED_DIR@);
                assert(0 <= i < components_spec(path@).len() && components_spec(path@)[i as int]
                    == USED_DIR@);
                assert(under_used(path@));
            }
            return None;
        }
        i += 1;
    }
    if !is_supported_audio(path) {
        return None;
    }
    let parent = match path_parent(path) {
        Some(p) => p,
        None => return None,
    };
    let stem = match path_file_stem(path) {
        Some(s) => s,
        None => return None,
    };
    Some((parent, stem))
}

/// Files of one directory sharing a stem.
#[derive(Debug)]
pub struct AudioGroup {
    pub parent: String,
    pub stem: String,
    pub audios: Vec<String>,
}

/// The files among `paths` whose group is `(parent, stem)`, in order.
pub open spec fn members(paths: Seq<Seq<char>>, parent: Seq<char>, stem: Seq<char>) -> Seq<Seq<char>>
    decreases paths.len(),
{
    if paths.len() == 0 {
        Seq::empty()
    } else {
        let prev = members(paths.drop_last(), parent, stem);
        if group_key_spec(paths.last()) == Some((parent, stem)) {
            prev.push(paths.last())
        } else {
            prev
        }
    }
}

/// The texts of a list of strings.
pub open spec fn texts(v: Seq<String>) -> Seq<Seq<char>> {
    v.map_values(|s: String| s@)
}

/// Groups the files found by a scan by directory and stem: one group per
/// key that some file has, each with all the files of that key in the
/// order found. (Directories are compared as text.) The groups are a list
/// with one entry per key: a `std` hash map keyed by paths and strings has
/// no key model in vstd.
pub fn group_audio_files(paths: &Vec<String>) -> (r: Vec<AudioGroup>)
    ensures
        forall|i: int, j: int|
            0 <= i < j < r@.len() ==> (#[trigger] r@[i].parent@, r@[i].stem@) != (
                #[trigger] r@[j].parent@,
                r@[j].stem@,
            ),
        forall|i: int|
            0 <= i < r@.len() ==> texts((#[trigger] r@[i]).audios@) == members(
                texts(paths@),
                r@[i].parent@,
                r@[i].stem@,
            ) && r@[i].audios@.len() > 0,
        forall|k: int|
            0 <= k < paths@.len() ==> (group_key_spec((#[trigger] paths@[k])@) is Some
                ==> exists|i: int|
                0 <= i < r@.len() && group_key_spec(paths@[k]@) == Some(
                    (#[trigger] r@[i].parent@, r@[i].stem@),
                )),
{
    let mut groups: Vec<AudioGroup> = Vec::new();
    let mut n: usize = 0;
    while n < paths.len()
        invariant
            n <= paths@.len(),
            forall|i: int, j: int|
                0 <= i < j < groups@.len() ==> (#[trigger] groups@[i].parent@, groups@[i].stem@)
                    != (#[trigger] groups@[j].parent@, groups@[j].stem@),
            forall|i: int|
                0 <= i < groups@.len() ==> texts((#[trigger] groups@[i]).audios@) == members(
                    texts(paths@).subrange(0, n as int),
                    groups@[i].parent@,
                    groups@[i].stem@,
                ) && groups@[i].audios@.len() > 0,
            forall|i: int|
                0 <= i < groups@.len() ==> group_key_spec(#[trigger] groups@[i].audios@[0]@)
                    == Some((groups@[i].parent@, groups@[i].stem@)),
            forall|k: int|
                0 <= k < n ==> (group_key_spec((#[trigger] paths@[k])@) is Some ==> exists|i: int|
                    0 <= i < groups@.len() && group_key_spec(paths@[k]@) == Some(
                        (#[trigger] groups@[i].parent@, groups@[i].stem@),
                    )),
            forall|p: Seq<char>, s: Seq<char>|
                (forall|i: int|
                    0 <= i < groups@.len() ==> (#[trigger] groups@[i].parent@, groups@[i].stem@)
                        != (p, s)) ==> #[trigger] members(
                    texts(paths@).subrange(0, n as int),
                    p,
                    s,
                ).len() == 0,
        decreases paths.len() - n,
    {
        let ghost tp = texts(paths@);
        proof {
            assert(tp.subrange(0, n + 1).drop_last() =~= tp.subrange(0, n as int));
            assert(tp.subrange(0, n + 1).last() == paths@[n as int]@);
        }
        match group_key(paths[n].as_str()) {
            None => {
                proof {
                    assert forall|i: int| 0 <= i < groups@.len() implies texts(
                        (#[trigger] groups@[i]).audios@,
                    ) == members(
                        tp.subrange(0, n + 1),
                        groups@[i].parent@,
                        groups@[i].stem@,
                    ) by {}
                    assert forall|p: Seq<char>, s: Seq<char>|
                        (forall|i: int|
                            0 <= i < groups@.len() ==> (#[trigger] groups@[i].parent@, groups@[i].stem@)
                                != (p, s)) implies #[trigger] members(
                        tp.subrange(0, n + 1),
                        p,
                        s,
                    ).len() == 0 by {
                        assert(members(tp.subrange(0, n + 1), p, s) == members(
                            tp.subrange(0, n as int),
                            p,
                            s,
                        ));
                        assert(members(tp.subrange(0, n as int), p, s).len() == 0);
                    }
                }
            },
            Some((parent, stem)) => {
                let mut j: usize = 0;
                while j < groups.len() && !(crate::text::str_eq(groups[j].parent.as_str(), parent.as_str())
                    && crate::text::str_eq(groups[j].stem.as_str(), stem.as_str()))
                    invariant
                        j <= groups@.len(),
                        forall|i: int|
                            0 <= i < j ==> (#[trigger] groups@[i].parent@, groups@[i].stem@) != (
                                parent@,
                                stem@,
                            ),
                    decreases groups.len() - j,
                {
                    j += 1;
                }
                let ghost before = groups@;
                let ghost key = (parent@, stem@);
                let ghost x = paths@[n as int]@;
                assert(group_key_spec(x) == Some(key));
                if j < groups.len() {
                    assert((groups@[j as int].parent@, groups@[j as int].stem@) == key);
                    let mut g = groups.remove(j);
                    let ghost old_aud = g.audios@;
                    g.audios.push(paths[n].clone());
                    proof {
                        assert(texts(g.audios@) =~= texts(old_aud).push(x));
                        assert(g.audios@[0] == old_aud[0]);
                    }
                    groups.insert(j, g);
                    proof {
                        assert(groups@ =~= before.update(j as int, groups@[j as int]));
                        assert forall|i: int, k: int|
                            0 <= i < k < groups@.len() implies (#[trigger] groups@[i].parent@,
                            groups@[i].stem@) != (#[trigger] groups@[k].parent@, groups@[k].stem@) by {
                            assert((groups@[i].parent@, groups@[i].stem@) == (before[i].parent@, before[i].stem@));
                            assert((groups@[k].parent@, groups@[k].stem@) == (before[k].parent@, before[k].stem@));
                        }
                        assert forall|i: int| 0 <= i < groups@.len() implies texts(
                            (#[trigger] groups@[i]).audios@,
                        ) == members(tp.subrange(0, n + 1), groups@[i].parent@, groups@[i].stem@)
                            && groups@[i].audios@.len() > 0 by {
                            if i != j {
                                assert(groups@[i] == before[i]);
                                assert((before[i].parent@, before[i].stem@) != (before[j as int].parent@, before[j as int].stem@));
                            }
                        }
                        assert forall|i: int| 0 <= i < groups@.len() implies group_key_spec(
                            #[trigger] groups@[i].audios@[0]@,
                        ) == Some((groups@[i].parent@, groups@[i].stem@)) by {
                            if i != j {
                                assert(groups@[i] == before[i]);
                            }
                        }
                        assert forall|k: int| 0 <= k < n + 1 implies (group_key_spec(
                            (#[trigger] paths@[k])@,
                        ) is Some ==> exists|i: int|
                            0 <= i < groups@.len() && group_key_spec(paths@[k]@) == Some(
                                (#[trigger] groups@[i].parent@, groups@[i].stem@),
                            )) by {
                            if k == n {
                                assert(group_key_spec(paths@[k]@) == Some(
                                    (groups@[j as int].parent@, groups@[j as int].stem@),
                                ));
                            } else if group_key_spec(paths@[k]@) is Some {
                                let i0 = choose|i: int|
                                    0 <= i < before.len() && group_key_spec(paths@[k]@) == Some(
                                        (#[trigger] before[i].parent@, before[i].stem@),
                                    );
                                assert((groups@[i0].parent@, groups@[i0].stem@) == (before[i0].parent@, before[i0].stem@));
                            }
                        }
                        assert forall|p: Seq<char>, s: Seq<char>|
                            (forall|i: int|
                                0 <= i < groups@.len() ==> (#[trigger] groups@[i].parent@,
                                    groups@[i].stem@) != (p, s)) implies #[trigger] members(
                            tp.subrange(0, n + 1),
                            p,
                            s,
                        ).len() == 0 by {
                            assert((groups@[j as int].parent@, groups@[j as int].stem@) != (p, s));
                            assert forall|i: int| 0 <= i < before.len() implies (#[trigger] before[i].parent@,
                                before[i].stem@) != (p, s) by {
                                assert((groups@[i].parent@, groups@[i].stem@) == (before[i].parent@, before[i].stem@));
                            }
                            assert(members(tp.subrange(0, n + 1), p, s) == members(
                                tp.subrange(0, n as int),
                                p,
                                s,
                            ));
                            assert(members(tp.subrange(0, n as int), p, s).len() == 0);
                        }
                    }
                } else {
                    let mut aud: Vec<String> = Vec::new();
                    aud.push(paths[n].clone());
                    proof {
                        assert(members(tp.subrange(0, n as int), parent@, stem@).len() == 0);
                    }
                    groups.push(AudioGroup { parent, stem, audios: aud });
                    proof {
                        let m = groups@.len() - 1;
                        assert(texts(groups@[m].audios@) =~= seq![x]);
                        assert(members(tp.subrange(0, n + 1), key.0, key.1) =~= members(
                            tp.subrange(0, n as int),
                            key.0,
                            key.1,
                        ).push(x));
                        assert forall|i: int, k: int|
                            0 <= i < k < groups@.len() implies (#[trigger] groups@[i].parent@,
                            groups@[i].stem@) != (#[trigger] groups@[k].parent@, groups@[k].stem@) by {
                            assert(groups@[i] == before[i]);
                            if k < m {
                                assert(groups@[k] == before[k]);
                            }
                        }
                        assert forall|i: int| 0 <= i < groups@.len() implies texts(
                            (#[trigger] groups@[i]).audios@,
                        ) == members(tp.subrange(0, n + 1), groups@[i].parent@, groups@[i].stem@)
                            && groups@[i].audios@.len() > 0 by {
                            if i < m {
                                assert(groups@[i] == before[i]);
                            }
                        }
                        assert forall|i: int| 0 <= i < groups@.len() implies group_key_spec(
                            #[trigger] groups@[i].audios@[0]@,
                        ) == Some((groups@[i].parent@, groups@[i].stem@)) by {
                            if i < m {
                                assert(groups@[i] == before[i]);
                            }
                        }
                        assert forall|k: int| 0 <= k < n + 1 implies (group_key_spec(
                            (#[trigger] paths@[k])@,
                        ) is Some ==> exists|i: int|
                            0 <= i < groups@.len() && group_key_spec(paths@[k]@) == Some(
                                (#[trigger] groups@[i].parent@, groups@[i].stem@),
                            )) by {
                            if k == n {
                                assert(group_key_spec(paths@[k]@) == Some(
                                    (groups@[m].parent@, groups@[m].stem@),
                                ));
                            } else if group_key_spec(paths@[k]@) is Some {
                                let i0 = choose|i: int|
                                    0 <= i < before.len() && group_key_spec(paths@[k]@) == Some(
                                        (#[trigger] before[i].parent@, before[i].stem@),
                                    );
                                assert(groups@[i0] == before[i0]);
                            }
                        }
                        assert forall|p: Seq<char>, s: Seq<char>|
                            (forall|i: int|
                                0 <= i < groups@.len() ==> (#[trigger] groups@[i].parent@,
                                    groups@[i].stem@) != (p, s)) implies #[trigger] members(
                            tp.subrange(0, n + 1),
                            p,
                            s,
                        ).len() == 0 by {
                            assert((groups@[m].parent@, groups@[m].stem@) != (p, s));
                            assert forall|i: int| 0 <= i < before.len() implies (#[trigger] before[i].parent@,
                                before[i].stem@) != (p, s) by {
                                assert(groups@[i] == before[i]);
                            }
                            assert(members(tp.subrange(0, n + 1), p, s) == members(
                                tp.subrange(0, n as int),
                                p,
                                s,
                            ));
                            assert(members(tp.subrange(0, n as int), p, s).len() == 0);
                        }
                    }
                }
            },
        }
        n += 1;
    }
    proof {
        assert(texts(paths@).subrange(0, paths@.len() as int) =~= texts(paths@));
    }
    groups
}

/// Which text becomes the lyrics of a group: the `.lrc` file when there is
/// one, else the subtitle file converted to synchronized lyrics.
#[derive(Debug, Clone, Copy, PartialEq, Eq)]
pub enum LyricSource {
    Lrc,
    Srt,
    NoLyrics,
}

/// Chooses the lyric source of a group.
pub fn lyric_source(has_lrc: bool, has_srt: bool) -> (r: LyricSource)
    ensures
        has_lrc ==> r == LyricSource::Lrc,
        !has_lrc && has_srt ==> r == LyricSource::Srt,
        !has_lrc && !has_srt ==> r == LyricSource::NoLyrics,
{
    if has_lrc {
        LyricSource::Lrc
    } else if has_srt {
        LyricSource::Srt
    } else {
        LyricSource::NoLyrics
    }
}

/// Lyrics taken from a subtitle file: its conversion, unless that is empty.
pub fn srt_lyrics(raw: &str) -> (r: Option<String>)
    ensures
        srt_to_lrc(raw@).len() > 0 ==> (r matches Some(t) && t@ == srt_to_lrc(raw@)),
        srt_to_lrc(raw@).len() == 0 ==> r is None,
{
    let converted = to_lrc(raw);
    if converted.unicode_len() > 0 {
        Some(converted)
    } else {
        None
    }
}

/// Whether cover art is read and written: when the tag has none, or with
/// `--force`.
pub fn wants_cover(has_cover: bool, force: bool) -> (r: bool)
    ensures
        r == (!has_cover || force),
{
    !has_cover || force
}

/// How a cover image read from disk goes into the tag.
#[derive(Debug, Clone, Copy, PartialEq, Eq)]
pub enum CoverWrite {
    /// The image file is empty: leave the tag alone.
    Skip,
    /// Add the image as the front cover.
    Add,
    /// Remove the existing front cover, then add the image.
    Replace,
}

/// Chooses how a cover image of `data_len` bytes is written.
pub fn cover_write(has_cover: bool, data_len: usize) -> (r: CoverWrite)
    ensures
        data_len == 0 ==> r == CoverWrite::Skip,
        data_len > 0 && has_cover ==> r == CoverWrite::Replace,
        data_len > 0 && !has_cover ==> r == CoverWrite::Add,
{
    if data_len == 0 {
        CoverWrite::Skip
    } else if has_cover {
        CoverWrite::Replace
    } else {
        CoverWrite::Add
    }
}

/// Whether lyrics of `text_len` characters are written: the text is not
/// empty and the tag has no lyrics yet, or `--force`.
pub fn wants_lyrics(has_lyrics: bool, force: bool, text_len: usize) -> (r: bool)
    ensures
        r == ((!has_lyrics || force) && text_len > 0),
{
    (!has_lyrics || force) && text_len > 0
}

/// Whether the tag is saved: it changed and this is not a dry run.
pub fn should_save(r: EmbedResult, dry_run: bool) -> (b: bool)
    ensures
        b == ((r.cover_embedded || r.lyrics_embedded) && !dry_run),
{
    r.changed() && !dry_run
}

/// Text encodings decoded by `encoding_rs`.
#[derive(Debug, Clone, Copy, PartialEq, Eq)]
pub enum TextEncoding {
    Utf16Le,
    Utf16Be,
    Gb18030,
}

/// What `String::from_utf8_lossy` gives for these bytes.
pub uninterp spec fn utf8_lossy_spec(bytes: Seq<u8>) -> Seq<char>;

/// What `encoding_rs`'s `Encoding::decode` gives for these bytes.
pub uninterp spec fn encoding_decode_spec(enc: TextEncoding, bytes: Seq<u8>) -> Seq<char>;

/// `String::from_utf8_lossy`: the bytes decoded as UTF-8, each invalid
/// sequence replaced by U+FFFD; on valid UTF-8 it is the plain decoding.
#[verifier::external_body]
fn utf8_lossy(bytes: &[u8]) -> (r: String)
    ensures
        r@ == utf8_lossy_spec(bytes@),
        valid_utf8(bytes@) ==> r@ == decode_utf8(bytes@),
{
    String::from_utf8_lossy(bytes).into_owned()
}

/// `encoding_rs`'s `Encoding::decode` for UTF-16LE, UTF-16BE or GB18030
/// (malformed input replaced, a leading byte-order mark honoured).
#[verifier::external_body]
fn decode_with(enc: TextEncoding, bytes: &[u8]) -> (r: String)
    ensures
        r@ == encoding_decode_spec(enc, bytes@),
{
    let e = match enc {
        TextEncoding::Utf16Le => encoding_rs::UTF_16LE,
        TextEncoding::Utf16Be => encoding_rs::UTF_16BE,
        TextEncoding::Gb18030 => encoding_rs::GB18030,
    };
    e.decode(bytes).0.into_owned()
}

/// The text of a lyric or subtitle file: a UTF-8 byte-order mark selects
/// UTF-8 (lossy), UTF-16 marks select UTF-16LE/BE, unmarked valid UTF-8 is
/// taken as it is, and anything else is read as GB18030.
pub open spec fn decoded_text(b: Seq<u8>) -> Seq<char> {
    if b.len() >= 3 && b[0] == 0xEFu8 && b[1] == 0xBBu8 && b[2] == 0xBFu8 {
        utf8_lossy_spec(b.subrange(3, b.len() as int))
    } else if b.len() >= 2 && b[0] == 0xFFu8 && b[1] == 0xFEu8 {
        encoding_decode_spec(TextEncoding::Utf16Le, b.subrange(2, b.len() as int))
    } else if b.len() >= 2 && b[0] == 0xFEu8 && b[1] == 0xFFu8 {
        encoding_decode_spec(TextEncoding::Utf16Be, b.subrange(2, b.len() as int))
    } else if valid_utf8(b) {
        decode_utf8(b)
    } else {
        encoding_decode_spec(TextEncoding::Gb18030, b)
    }
}

/// Decodes the bytes of a lyric or subtitle file.
pub fn decode_text(bytes: &[u8]) -> (r: String)
    ensures
        r@ == decoded_text(bytes@),
{
    let n = bytes.len();
    if n >= 3 && bytes[0] == 0xEF && bytes[1] == 0xBB && bytes[2] == 0xBF {
        let rest = slice_from(bytes, 3);
        return utf8_lossy(rest.as_slice());
    }
    if n >= 2 && bytes[0] == 0xFF && bytes[1] == 0xFE {
        let rest = slice_from(bytes, 2);
        return decode_with(TextEncoding::Utf16Le, rest.as_slice());
    }
    if n >= 2 && bytes[0] == 0xFE && bytes[1] == 0xFF {
        let rest = slice_from(bytes, 2);
        return decode_with(TextEncoding::Utf16Be, rest.as_slice());
    }
    match crate::text::utf8_or_error(bytes) {
        Ok(s) => s,
        Err(_) => decode_with(TextEncoding::Gb18030, bytes),
    }
}

fn slice_from(bytes: &[u8], start: usize) -> (r: Vec<u8>)
    requires
        start <= bytes@.len(),
    ensures
        r@ == bytes@.subrange(start as int, bytes@.len() as int),
{
    let mut out: Vec<u8> = Vec::new();
    let mut i = start;
    while i < bytes.len()
        invariant
            start <= i <= bytes@.len(),
            out@ == bytes@.subrange(start as int, i as int),
        decreases bytes.len() - i,
    {
        out.push(bytes[i]);
        i += 1;
        proof {
            assert(out@ =~= bytes@.subrange(start as int, i as int));
        }
    }
    out
}


/// A path typed with surrounding quotes (as terminals paste it) without
/// them: a text of two or more characters that starts and ends with the
/// same quote, `"` or `'`, loses both.
pub open spec fn unquoted(s: Seq<char>) -> Seq<char> {
    if s.len() >= 2 && ((s[0] == '"' && s.last() == '"') || (s[0] == '\'' && s.last() == '\'')) {
        s.subrange(1, s.len() - 1)
    } else {
        s
    }
}

/// Removes one pair of surrounding quotes from a typed path.
pub fn strip_quotes(s: &str) -> (r: String)
    ensures
        r@ == unquoted(s@),
{
    let cs = chars_of(s);
    let n = cs.len();
    if n >= 2 && ((cs[0] == '"' && cs[n - 1] == '"') || (cs[0] == '\'' && cs[n - 1] == '\'')) {
        string_from_range(&cs, 1, n - 1)
    } else {
        proof {
            assert(cs@.subrange(0, n as int) =~= cs@);
        }
        string_from_range(&cs, 0, n)
    }
}

} // verus!
