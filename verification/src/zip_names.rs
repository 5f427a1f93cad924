//! Entry names of the download archive: each track contributes its audio
//! file, its cover (`.jpg`) and its lyric (`.lrc`), and clashing names get a
//! ` (2)`, ` (3)`, ... suffix.

use vstd::prelude::*;

use crate::text::{chars_of, decimal, push_decimal, push_str};
pub use vstd::hash_set::StringHashSet;

verus! {

/// Whether `name` is already used.
pub open spec fn used_has(used: Set<Seq<char>>, name: Seq<char>) -> bool {
    used.contains(name)
}

/// Candidate `k` for `base`/`ext`: `k == 1` is `base ext`, `2..=999` is
/// `base (k)ext`.
pub open spec fn candidate(base: Seq<char>, ext: Seq<char>, k: nat) -> Seq<char> {
    if k == 1 {
        base + ext
    } else {
        base + " ("@ + decimal(k) + ")"@ + ext
    }
}

/// The name chosen against the used names: the first free candidate from
/// `k` on, or `base (dup)ext` when candidates up to 999 are all taken.
pub open spec fn first_free(used: Set<Seq<char>>, base: Seq<char>, ext: Seq<char>, k: nat) -> Seq<char>
    decreases 1000 - k,
{
    if k > 999 {
        base + " (dup)"@ + ext
    } else if !used_has(used, candidate(base, ext, k)) {
        candidate(base, ext, k)
    } else {
        first_free(used, base, ext, k + 1)
    }
}

/// Some candidate from `k` to 999 is free.
pub open spec fn any_free(used: Set<Seq<char>>, base: Seq<char>, ext: Seq<char>, k: nat) -> bool
    decreases 1000 - k,
{
    if k > 999 {
        false
    } else if !used_has(used, candidate(base, ext, k)) {
        true
    } else {
        any_free(used, base, ext, k + 1)
    }
}

/// Candidate `k` as text.
fn candidate_name(base: &str, ext: &str, k: u64) -> (r: String)
    requires
        k >= 1,
    ensures
        r@ == candidate(base@, ext@, k as nat),
{
    let mut name = String::new();
    push_str(&mut name, base);
    if k != 1 {
        push_str(&mut name, " (");
        push_decimal(&mut name, k);
        push_str(&mut name, ")");
    }
    push_str(&mut name, ext);
    name
}

/// Picks a free archive entry name for `base` + `ext` and records it as
/// used. The name is the first of `base ext`, `base (2)ext`, ...,
/// `base (999)ext` not yet used, or `base (dup)ext` when all are taken.
pub fn dedup_name(base: &str, ext: &str, used: &mut StringHashSet) -> (r: String)
    ensures
        r@ == first_free(old(used)@, base@, ext@, 1),
        final(used)@ == if any_free(old(used)@, base@, ext@, 1) {
            old(used)@.insert(r@)
        } else {
            old(used)@
        },
{
    let mut k: u64 = 1;
    while k <= 999
        invariant
            1 <= k <= 1000,
            used@ == old(used)@,
            first_free(used@, base@, ext@, 1) == first_free(used@, base@, ext@, k as nat),
            any_free(used@, base@, ext@, 1) == any_free(used@, base@, ext@, k as nat),
        decreases 1000 - k,
    {
        let name = candidate_name(base, ext, k);
        if !used.contains(name.as_str()) {
            let r = String::from_str(name.as_str());
            used.insert(name);
            return r;
        }
        k += 1;
    }
    let mut name = String::new();
    push_str(&mut name, base);
    push_str(&mut name, " (dup)");
    push_str(&mut name, ext);
    name
}

/// A name handed out by `dedup_name` before the fallback is one that was not
/// in use: archive entries never collide while candidates remain.
pub proof fn lemma_dedup_fresh(used: Set<Seq<char>>, base: Seq<char>, ext: Seq<char>, k: nat)
    requires
        1 <= k,
    ensures
        first_free(used, base, ext, k) != base + " (dup)"@ + ext ==> !used_has(
            used,
            first_free(used, base, ext, k),
        ),
    decreases 1000 - k,
{
    if k <= 999 && used_has(used, candidate(base, ext, k)) {
        lemma_dedup_fresh(used, base, ext, k + 1);
    }
}

/// The used names after `dedup_name(base, ext)` recorded its choice.
pub open spec fn used_after(used: Set<Seq<char>>, base: Seq<char>, ext: Seq<char>) -> Set<Seq<char>> {
    if any_free(used, base, ext, 1) {
        used.insert(first_free(used, base, ext, 1))
    } else {
        used
    }
}

/// `name` ends with `ext`.
pub open spec fn ends_with(name: Seq<char>, ext: Seq<char>) -> bool {
    ext.len() <= name.len() && name.subrange(name.len() - ext.len(), name.len() as int) == ext
}

/// Every name `dedup_name` hands out ends with the extension it was given,
/// so removing that extension gives the stem the name was built on.
pub proof fn lemma_dedup_ends_with_ext(used: Set<Seq<char>>, base: Seq<char>, ext: Seq<char>, k: nat)
    requires
        1 <= k,
    ensures
        ends_with(first_free(used, base, ext, k), ext),
    decreases 1000 - k,
{
    let f = first_free(used, base, ext, k);
    if k > 999 {
        assert(f.subrange(f.len() - ext.len(), f.len() as int) =~= ext);
    } else if !used_has(used, candidate(base, ext, k)) {
        assert(f.subrange(f.len() - ext.len(), f.len() as int) =~= ext);
    } else {
        lemma_dedup_ends_with_ext(used, base, ext, k + 1);
    }
}

/// `name` without the suffix `ext`, or `fallback` when it does not end with it.
pub open spec fn strip_suffix_or(name: Seq<char>, ext: Seq<char>, fallback: Seq<char>) -> Seq<char> {
    if ext.len() <= name.len() && name.subrange(name.len() - ext.len(), name.len() as int) == ext {
        name.subrange(0, name.len() - ext.len())
    } else {
        fallback
    }
}

/// The stem the cover and lyric entries of a track are named after is the
/// audio entry's own name with its extension removed: stem and extension
/// put back together give the audio entry exactly.
pub proof fn lemma_entry_stem_is_audio_name(used: Set<Seq<char>>, base: Seq<char>, ext: Seq<char>)
    ensures
        ({
            let audio = first_free(used, base, ext, 1);
            let stem = strip_suffix_or(audio, ext, base);
            &&& stem == audio.subrange(0, audio.len() - ext.len())
            &&& stem + ext == audio
        }),
{
    lemma_dedup_ends_with_ext(used, base, ext, 1);
    let audio = first_free(used, base, ext, 1);
    assert(audio.subrange(0, audio.len() - ext.len()) + ext =~= audio);
}


/// `name` with the suffix `ext` removed, or `fallback` when it does not end with it.
pub fn strip_suffix_or_base(name: &str, ext: &str, fallback: &str) -> (r: String)
    ensures
        r@ == strip_suffix_or(name@, ext@, fallback@),
{
    let n = chars_of(name);
    let e = chars_of(ext);
    if e.len() <= n.len() {
        let off = n.len() - e.len();
        let mut j: usize = 0;
        let mut same = true;
        while j < e.len()
            invariant
                off + e.len() == n.len(),
                j <= e.len(),
                same == (forall|t: int| 0 <= t < j ==> n@[off + t] == e@[t]),
            decreases e.len() - j,
        {
            if n[off + j] != e[j] {
                same = false;
            }
            j += 1;
        }
        proof {
            if same {
                assert(n@.subrange(off as int, n.len() as int) =~= e@);
            } else {
                let t = choose|t: int| 0 <= t < e.len() && n@[off + t] != e@[t];
                assert(n@.subrange(off as int, n.len() as int)[t] != e@[t]);
            }
        }
        if same {
            return crate::text::string_from_range(&n, 0, off);
        }
    }
    String::from_str(fallback)
}

/// Archive entry names of one track: the audio file, then (when present) its
/// cover and its lyric, named after the audio entry's deduplicated stem.
pub fn track_entry_names(
    base: &str,
    ext: &str,
    has_cover: bool,
    has_lyric: bool,
    used: &mut StringHashSet,
) -> (r: (String, Option<String>, Option<String>))
    ensures
        r.0@ == first_free(old(used)@, base@, ext@, 1),
        has_cover == r.1.is_some(),
        has_lyric == r.2.is_some(),
        ends_with(r.0@, ext@),
        r.1 matches Some(c) ==> c@ == first_free(
            used_after(old(used)@, base@, ext@),
            r.0@.subrange(0, r.0@.len() - ext@.len()),
            ".jpg"@,
            1,
        ),
        r.2 matches Some(l) ==> l@ == first_free(
            if has_cover {
                used_after(
                    used_after(old(used)@, base@, ext@),
                    r.0@.subrange(0, r.0@.len() - ext@.len()),
                    ".jpg"@,
                )
            } else {
                used_after(old(used)@, base@, ext@)
            },
            r.0@.subrange(0, r.0@.len() - ext@.len()),
            ".lrc"@,
            1,
        ),
{
    let audio = dedup_name(base, ext, used);
    let stem = strip_suffix_or_base(audio.as_str(), ext, base);
    proof {
        lemma_dedup_ends_with_ext(old(used)@, base@, ext@, 1);
    }
    let cover = if has_cover {
        Some(dedup_name(stem.as_str(), ".jpg", used))
    } else {
        None
    };
    let lyric = if has_lyric {
        Some(dedup_name(stem.as_str(), ".lrc", used))
    } else {
        None
    };
    (audio, cover, lyric)
}

} // verus!
