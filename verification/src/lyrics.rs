//! Bilingual LRC merge: the original lyric and its translation, interleaved
//! by timestamp as `[ts]original` / `[ts]translation` line pairs, a format
//! that common players show as two-line lyrics.

use vstd::prelude::*;

use crate::text::{
    chars_of, is_ws, lead_ws, lemma_lead_ws, lines, push_all, push_str, skip_ws_forward,
    split_lines, string_from_chars, trim_start,
};
use vstd::hash_map::StringHashMap;

verus! {

/// Index of the first `c` in `s` at or after `i`.
pub open spec fn find_from(s: Seq<char>, c: char, i: int) -> Option<int>
    decreases s.len() - i,
{
    if i < 0 || i >= s.len() {
        None
    } else if s[i] == c {
        Some(i)
    } else {
        find_from(s, c, i + 1)
    }
}

/// ASCII decimal digit.
pub open spec fn is_ascii_digit(c: char) -> bool {
    '0' <= c <= '9'
}

/// A timestamped LRC line `[digits...]text`, after leading whitespace:
/// the text inside the first bracket pair (it must start with an ASCII
/// digit) and the text after it. Tag lines such as `[ti:...]` give `None`.
pub open spec fn lrc_split(line: Seq<char>) -> Option<(Seq<char>, Seq<char>)> {
    let s = trim_start(line);
    if s.len() == 0 || s[0] != '[' {
        None
    } else {
        let rest = s.drop_first();
        match find_from(rest, ']', 0) {
            None => None,
            Some(end) => {
                let inside = rest.subrange(0, end);
                if inside.len() > 0 && is_ascii_digit(inside[0]) {
                    Some((inside, rest.subrange(end + 1, rest.len() as int)))
                } else {
                    None
                }
            },
        }
    }
}

/// All characters are whitespace.
pub open spec fn blank(s: Seq<char>) -> bool {
    forall|i: int| 0 <= i < s.len() ==> is_ws(#[trigger] s[i])
}

/// Translation entries of a translated lyric, in line order: each
/// timestamped line with non-blank text gives (timestamp, text).
pub open spec fn translation_entries(ls: Seq<Seq<char>>) -> Seq<(Seq<char>, Seq<char>)>
    decreases ls.len(),
{
    if ls.len() == 0 {
        Seq::empty()
    } else {
        let e = translation_entries(ls.drop_last());
        match lrc_split(ls.last()) {
            Some((ts, text)) => if !blank(text) {
                e.push((ts, text))
            } else {
                e
            },
            None => e,
        }
    }
}

/// The translation of timestamp `ts`: its last entry (later lines win).
pub open spec fn latest(e: Seq<(Seq<char>, Seq<char>)>, ts: Seq<char>) -> Option<Seq<char>>
    decreases e.len(),
{
    if e.len() == 0 {
        None
    } else if e.last().0 == ts {
        Some(e.last().1)
    } else {
        latest(e.drop_last(), ts)
    }
}

/// The translations of entries `e` by timestamp: later entries replace
/// earlier ones.
pub open spec fn entries_map(e: Seq<(Seq<char>, Seq<char>)>) -> Map<Seq<char>, Seq<char>>
    decreases e.len(),
{
    if e.len() == 0 {
        Map::empty()
    } else {
        entries_map(e.drop_last()).insert(e.last().0, e.last().1)
    }
}

/// Looking a timestamp up in the map of entries finds its last entry.
proof fn lemma_entries_map_latest(e: Seq<(Seq<char>, Seq<char>)>, ts: Seq<char>)
    ensures
        entries_map(e).contains_key(ts) == (latest(e, ts) is Some),
        latest(e, ts) matches Some(t) ==> entries_map(e)[ts] == t,
    decreases e.len(),
{
    if e.len() > 0 {
        lemma_entries_map_latest(e.drop_last(), ts);
    }
}

/// The map of entries is empty exactly when there are no entries.
proof fn lemma_entries_map_empty(e: Seq<(Seq<char>, Seq<char>)>)
    ensures
        entries_map(e).is_empty() == (e.len() == 0),
{
    if e.len() > 0 {
        assert(entries_map(e).dom().contains(e.last().0));
    } else {
        assert(entries_map(e).dom() =~= Set::<Seq<char>>::empty());
    }
}

/// Output for the original lines `ls`: each line and a newline, followed by
/// `[ts]translation` and a newline when the line's timestamp has one.
pub open spec fn merged_lines(ls: Seq<Seq<char>>, e: Seq<(Seq<char>, Seq<char>)>) -> Seq<char>
    decreases ls.len(),
{
    if ls.len() == 0 {
        Seq::empty()
    } else {
        let line = ls.last();
        merged_lines(ls.drop_last(), e) + line + seq!['\n'] + match lrc_split(line) {
            Some((ts, _)) => match latest(e, ts) {
                Some(t) => seq!['['] + ts + seq![']'] + t + seq!['\n'],
                None => Seq::empty(),
            },
            None => Seq::empty(),
        }
    }
}

/// The merged lyric: empty without an original; the original unchanged
/// without any usable translation; otherwise the interleaved lines.
pub open spec fn merged(lyric: Seq<char>, tlyric: Seq<char>) -> Seq<char> {
    if lyric.len() == 0 {
        Seq::empty()
    } else {
        let e = translation_entries(lines(tlyric));
        if e.len() == 0 {
            lyric
        } else {
            merged_lines(lines(lyric), e)
        }
    }
}

/// Splits a line held as characters (see [`lrc_split`]).
fn split_lrc_chars(line: &Vec<char>) -> (r: Option<(Vec<char>, Vec<char>)>)
    ensures
        match lrc_split(line@) {
            Some((ts, text)) => r matches Some((a, b)) && a@ == ts && b@ == text,
            None => r is None,
        },
{
    let n = line.len();
    let lo = skip_ws_forward(line, 0, n);
    let ghost s = trim_start(line@);
    proof {
        assert(line@.subrange(0, n as int) =~= line@);
        assert(s =~= line@.subrange(lo as int, n as int));
    }
    if lo >= n || line[lo] != '[' {
        return None;
    }
    let ghost rest = s.drop_first();
    proof {
        assert(rest =~= line@.subrange(lo + 1, n as int));
    }
    let mut j = lo + 1;
    while j < n && line[j] != ']'
        invariant
            lo < n == line.len(),
            lo + 1 <= j <= n,
            rest == line@.subrange(lo + 1, n as int),
            find_from(rest, ']', 0) == find_from(rest, ']', j - lo - 1),
        decreases n - j,
    {
        j += 1;
    }
    if j >= n {
        return None;
    }
    let start = lo + 1;
    if j == start || !('0' <= line[start] && line[start] <= '9') {
        proof {
            assert(rest.subrange(0, j - lo - 1) =~= line@.subrange(lo + 1, j as int));
        }
        return None;
    }
    let mut ts: Vec<char> = Vec::new();
    let mut k = start;
    while k < j
        invariant
            start <= k <= j < n == line.len(),
            ts@ == line@.subrange(start as int, k as int),
        decreases j - k,
    {
        ts.push(line[k]);
        k += 1;
        proof {
            assert(ts@ =~= line@.subrange(start as int, k as int));
        }
    }
    let mut text: Vec<char> = Vec::new();
    let mut k2 = j + 1;
    while k2 < n
        invariant
            j + 1 <= k2 <= n == line.len(),
            text@ == line@.subrange(j + 1, k2 as int),
        decreases n - k2,
    {
        text.push(line[k2]);
        k2 += 1;
        proof {
            assert(text@ =~= line@.subrange(j + 1, k2 as int));
        }
    }
    proof {
        assert(rest.subrange(0, j - lo - 1) =~= ts@);
        assert(rest.subrange(j - lo - 1 + 1, rest.len() as int) =~= text@);
    }
    Some((ts, text))
}

/// Splits a timestamped LRC line `[mm:ss.xx]text` into its timestamp and
/// text; tag lines (`[ti:...]`, `[ar:...]`) and other lines give `None`.
pub fn split_lrc_line(line: &str) -> (r: Option<(String, String)>)
    ensures
        match lrc_split(line@) {
            Some((ts, text)) => r matches Some((a, b)) && a@ == ts && b@ == text,
            None => r is None,
        },
{
    let cs = chars_of(line);
    match split_lrc_chars(&cs) {
        Some((ts, text)) => Some((string_from_chars(&ts), string_from_chars(&text))),
        None => None,
    }
}

/// Whether every character of `cs` is whitespace.
fn is_blank(cs: &Vec<char>) -> (r: bool)
    ensures
        r == blank(cs@),
{
    let i = skip_ws_forward(cs, 0, cs.len());
    proof {
        assert(cs@.subrange(0, cs.len() as int) =~= cs@);
        lemma_lead_ws(cs@);
    }
    i == cs.len()
}

/// Builds the translations of a translated lyric by timestamp (see
/// [`translation_entries`]); a timestamp that occurs twice keeps its last text.
fn build_translation_map(tlyric: &str) -> (r: StringHashMap<String>)
    ensures
        r@.dom() == entries_map(translation_entries(lines(tlyric@))).dom(),
        forall|k: Seq<char>| #[trigger]
            r@.contains_key(k) ==> r@[k]@ == entries_map(translation_entries(lines(tlyric@)))[k],
{
    let ls = split_lines(tlyric);
    let ghost lv = lines(tlyric@);
    let mut out: StringHashMap<String> = StringHashMap::new();
    let mut i: usize = 0;
    proof {
        assert(out@.dom() =~= entries_map(translation_entries(lv.subrange(0, 0))).dom());
    }
    while i < ls.len()
        invariant
            ls.len() == lv.len(),
            forall|k: int| 0 <= k < ls.len() ==> (#[trigger] ls@[k])@ == lv[k],
            i <= ls.len(),
            out@.dom() == entries_map(translation_entries(lv.subrange(0, i as int))).dom(),
            forall|k: Seq<char>| #[trigger]
                out@.contains_key(k) ==> out@[k]@ == entries_map(
                    translation_entries(lv.subrange(0, i as int)),
                )[k],
        decreases ls.len() - i,
    {
        proof {
            assert(lv.subrange(0, i + 1).drop_last() =~= lv.subrange(0, i as int));
            assert(lv.subrange(0, i + 1).last() == ls@[i as int]@);
        }
        let ghost m0 = entries_map(translation_entries(lv.subrange(0, i as int)));
        match split_lrc_chars(&ls[i]) {
            Some((ts, text)) => {
                if !is_blank(&text) {
                    let key = string_from_chars(&ts);
                    let val = string_from_chars(&text);
                    out.insert(key, val);
                    proof {
                        let e0 = translation_entries(lv.subrange(0, i as int));
                        let e1 = translation_entries(lv.subrange(0, i + 1));
                        assert(e1 == e0.push((ts@, text@)));
                        assert(e1.drop_last() =~= e0);
                        let m1 = entries_map(e1);
                        assert(m1 == m0.insert(ts@, text@));
                        assert(out@.dom() =~= m1.dom());
                    }
                } else {
                    proof {
                        assert(entries_map(translation_entries(lv.subrange(0, i + 1))) == m0);
                    }
                }
            },
            None => {
                proof {
                    assert(entries_map(translation_entries(lv.subrange(0, i + 1))) == m0);
                }
            },
        }
        i += 1;
    }
    proof {
        assert(lv.subrange(0, ls.len() as int) =~= lv);
    }
    out
}

/// Merges an original LRC lyric with its translation. Without an original
/// the result is empty; without any usable translation line it is the
/// original unchanged. Otherwise each original line is followed by the
/// translation that has its timestamp; translation lines whose timestamp is
/// not in the original are dropped, and tag lines never match.
pub fn merge_bilingual_lrc(lyric: &str, tlyric: &str) -> (r: String)
    ensures
        r@ == merged(lyric@, tlyric@),
{
    if lyric.is_empty() {
        return String::new();
    }
    let translations = build_translation_map(tlyric);
    let ghost e = translation_entries(lines(tlyric@));
    proof {
        lemma_entries_map_empty(e);
        assert(translations@.is_empty() == entries_map(e).is_empty());
    }
    if translations.is_empty() {
        return String::from_str(lyric);
    }
    let ls = split_lines(lyric);
    let ghost lv = lines(lyric@);
    let mut out = String::new();
    let mut i: usize = 0;
    while i < ls.len()
        invariant
            ls.len() == lv.len(),
            forall|k: int| 0 <= k < ls.len() ==> (#[trigger] ls@[k])@ == lv[k],
            e == translation_entries(lines(tlyric@)),
            translations@.dom() == entries_map(e).dom(),
            forall|k: Seq<char>| #[trigger]
                translations@.contains_key(k) ==> translations@[k]@ == entries_map(e)[k],
            i <= ls.len(),
            out@ == merged_lines(lv.subrange(0, i as int), e),
        decreases ls.len() - i,
    {
        let line = &ls[i];
        proof {
            assert(lv.subrange(0, i + 1).drop_last() =~= lv.subrange(0, i as int));
            assert(lv.subrange(0, i + 1).last() == line@);
        }
        let ghost before = out@;
        push_all(&mut out, line);
        out.push('\n');
        let ghost mid = out@;
        match split_lrc_chars(line) {
            Some((ts, _)) => {
                let key = string_from_chars(&ts);
                proof {
                    lemma_entries_map_latest(e, ts@);
                }
                match translations.get(key.as_str()) {
                    Some(t) => {
                        out.push('[');
                        push_all(&mut out, &ts);
                        out.push(']');
                        push_str(&mut out, t.as_str());
                        out.push('\n');
                        proof {
                            assert(out@ =~= before + line@ + seq!['\n'] + (seq!['['] + ts@ + seq![']']
                                + t@ + seq!['\n']));
                        }
                    },
                    None => {
                        proof {
                            assert(out@ =~= before + line@ + seq!['\n'] + Seq::<char>::empty());
                        }
                    },
                }
            },
            None => {
                proof {
                    assert(out@ =~= before + line@ + seq!['\n'] + Seq::<char>::empty());
                }
            },
        }
        i += 1;
    }
    proof {
        assert(lv.subrange(0, ls.len() as int) =~= lv);
    }
    out
}

} // verus!
