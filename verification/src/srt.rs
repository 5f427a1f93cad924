//! SubRip (`.srt`) subtitles to line-level LRC lyrics: each subtitle block
//! becomes one `[mm:ss.cc]text` line with the block's start time and its
//! text lines joined by spaces.

use vstd::prelude::*;

use crate::text::{
    chars_of, decimal_padded, find_sub, find_sub_from, lines, parse_u64, parse_u64_spec, push_all,
    push_decimal_padded, skip_ws_backward, skip_ws_forward, split_lines, trim,
};

verus! {

/// The arrow that separates start and end time of a block.
pub open spec fn arrow() -> Seq<char> {
    seq!['-', '-', '>']
}

/// Field separators of a timestamp.
pub open spec fn is_time_sep(c: char) -> bool {
    c == ':' || c == ',' || c == '.'
}

/// Splitting at separators: pieces finished so far and the piece in progress.
pub open spec fn split_fold(s: Seq<char>) -> (Seq<Seq<char>>, Seq<char>)
    decreases s.len(),
{
    if s.len() == 0 {
        (Seq::empty(), Seq::empty())
    } else {
        let (done, cur) = split_fold(s.drop_last());
        if is_time_sep(s.last()) {
            (done.push(cur), Seq::empty())
        } else {
            (done, cur.push(s.last()))
        }
    }
}

/// The pieces of `s` between separators (one more than the separators).
pub open spec fn time_fields(s: Seq<char>) -> Seq<Seq<char>> {
    let (done, cur) = split_fold(s);
    done.push(cur)
}

/// `h * 60 + m`, saturating at `u64::MAX`.
pub open spec fn total_minutes(h: u64, m: u64) -> u64 {
    let hm = if h * 60 <= u64::MAX {
        (h * 60) as u64
    } else {
        u64::MAX
    };
    if hm + m <= u64::MAX {
        (hm + m) as u64
    } else {
        u64::MAX
    }
}

/// Start time of a timestamp line `HH:MM:SS,mmm --> ...`: total minutes,
/// seconds and centiseconds; `None` when fewer than four fields are present
/// or one of the first four is not a number.
pub open spec fn srt_start(line: Seq<char>) -> Option<(u64, u64, u64)> {
    let before = match find_sub_from(line, arrow(), 0) {
        Some(k) => line.subrange(0, k),
        None => line,
    };
    let f = time_fields(trim(before));
    if f.len() < 4 {
        None
    } else {
        match (
            parse_u64_spec(trim(f[0])),
            parse_u64_spec(trim(f[1])),
            parse_u64_spec(trim(f[2])),
            parse_u64_spec(trim(f[3])),
        ) {
            (Some(h), Some(m), Some(s), Some(ms)) => Some((total_minutes(h, m), s, ms / 10)),
            _ => None,
        }
    }
}

/// `s` without trailing carriage returns.
pub open spec fn strip_crs(s: Seq<char>) -> Seq<char>
    decreases s.len(),
{
    if s.len() > 0 && s.last() == '\r' {
        strip_crs(s.drop_last())
    } else {
        s
    }
}

/// Text lines joined by single spaces.
pub open spec fn join_spaces(parts: Seq<Seq<char>>) -> Seq<char>
    decreases parts.len(),
{
    if parts.len() == 0 {
        Seq::empty()
    } else if parts.len() == 1 {
        parts[0]
    } else {
        join_spaces(parts.drop_last()) + seq![' '] + parts.last()
    }
}

/// The LRC line of one block; nothing for a block without text.
pub open spec fn lrc_line(t: (u64, u64, u64), parts: Seq<Seq<char>>) -> Seq<char> {
    if parts.len() == 0 {
        Seq::empty()
    } else {
        seq!['['] + decimal_padded(t.0 as nat, 2) + seq![':'] + decimal_padded(t.1 as nat, 2) + seq![
            '.',
        ] + decimal_padded(t.2 as nat, 2) + seq![']'] + join_spaces(parts) + seq!['\n']
    }
}

/// Conversion state: output so far, whether a block's text is being
/// collected, the block's start time and its text lines.
pub type SrtState = (Seq<char>, bool, (u64, u64, u64), Seq<Seq<char>>);

/// One line of input: outside a block, a `-->` line with a readable start
/// time opens a block; inside a block, a blank line (carriage returns aside)
/// closes it and emits its LRC line, any other line is text.
pub open spec fn srt_step(st: SrtState, l: Seq<char>) -> SrtState {
    let (out, collecting, t, parts) = st;
    if !collecting {
        if find_sub_from(l, arrow(), 0) is Some {
            match srt_start(l) {
                Some(t2) => (out, true, t2, Seq::empty()),
                None => (out, false, t, parts),
            }
        } else {
            (out, false, t, parts)
        }
    } else {
        let tl = strip_crs(l);
        if tl.len() == 0 {
            (out + lrc_line(t, parts), false, t, Seq::empty())
        } else {
            (out, true, t, parts.push(tl))
        }
    }
}

/// Conversion state after the lines `ls`.
pub open spec fn srt_fold(ls: Seq<Seq<char>>) -> SrtState
    decreases ls.len(),
{
    if ls.len() == 0 {
        (Seq::empty(), false, (0, 0, 0), Seq::empty())
    } else {
        srt_step(srt_fold(ls.drop_last()), ls.last())
    }
}

/// The LRC text of a SubRip document: blocks are found by their `-->`
/// line; a block whose start time cannot be read is skipped; a block's text
/// ends at a blank line or at the end of the document.
pub open spec fn srt_to_lrc(s: Seq<char>) -> Seq<char> {
    let (out, collecting, t, parts) = srt_fold(lines(s));
    if collecting {
        out + lrc_line(t, parts)
    } else {
        out
    }
}

/// `cs[r.0..r.1]` is `cs[lo..hi]` without surrounding whitespace.
fn trim_range(cs: &Vec<char>, lo: usize, hi: usize) -> (r: (usize, usize))
    requires
        lo <= hi <= cs.len(),
    ensures
        lo <= r.0 <= r.1 <= hi,
        cs@.subrange(r.0 as int, r.1 as int) == trim(cs@.subrange(lo as int, hi as int)),
{
    let a = skip_ws_forward(cs, lo, hi);
    let b = skip_ws_backward(cs, a, hi);
    proof {
        assert(cs@.subrange(a as int, hi as int) =~= crate::text::trim_start(
            cs@.subrange(lo as int, hi as int),
        ));
        assert(cs@.subrange(a as int, b as int) =~= trim(cs@.subrange(lo as int, hi as int)));
    }
    (a, b)
}

/// Reads the start time of a block's timestamp line held as characters.
fn parse_start_chars(cs: &Vec<char>) -> (r: Option<(u64, u64, u64)>)
    ensures
        r == srt_start(cs@),
{
    let arrow_v: Vec<char> = vec!['-', '-', '>'];
    proof {
        assert(arrow_v@ =~= arrow());
        assert(cs@.subrange(0, cs.len() as int) =~= cs@);
    }
    proof {
        crate::text::lemma_find_sub_from(cs@, arrow(), 0);
    }
    let end = match find_sub(cs, 0, cs.len(), &arrow_v) {
        Some(k) => k,
        None => cs.len(),
    };
    let (a, b) = trim_range(cs, 0, end);
    let ghost st = cs@.subrange(a as int, b as int);
    let mut bounds: Vec<(usize, usize)> = Vec::new();
    let mut piece = a;
    let mut i = a;
    proof {
        assert(cs@.subrange(a as int, a as int) =~= Seq::<char>::empty());
    }
    while i < b
        invariant
            a <= piece <= i <= b <= cs.len(),
            st == cs@.subrange(a as int, b as int),
            bounds.len() == split_fold(cs@.subrange(a as int, i as int)).0.len(),
            forall|k: int|
                0 <= k < bounds.len() ==> (#[trigger] bounds@[k]).0 <= bounds@[k].1 <= cs.len()
                    && cs@.subrange(bounds@[k].0 as int, bounds@[k].1 as int) == split_fold(
                    cs@.subrange(a as int, i as int),
                ).0[k],
            cs@.subrange(piece as int, i as int) == split_fold(cs@.subrange(a as int, i as int)).1,
        decreases b - i,
    {
        proof {
            assert(cs@.subrange(a as int, i + 1).drop_last() =~= cs@.subrange(a as int, i as int));
            assert(cs@.subrange(a as int, i + 1).last() == cs@[i as int]);
        }
        let c = cs[i];
        if c == ':' || c == ',' || c == '.' {
            bounds.push((piece, i));
            piece = i + 1;
            proof {
                assert(cs@.subrange(piece as int, i + 1) =~= Seq::<char>::empty());
            }
        } else {
            proof {
                assert(cs@.subrange(piece as int, i + 1) =~= cs@.subrange(piece as int, i as int).push(
                    c,
                ));
            }
        }
        i += 1;
    }
    bounds.push((piece, b));
    let ghost f = time_fields(st);
    proof {
        assert(f.len() == bounds.len());
        assert forall|k: int| 0 <= k < bounds.len() implies (#[trigger] bounds@[k]).0 <= bounds@[k].1
            <= cs.len() && cs@.subrange(bounds@[k].0 as int, bounds@[k].1 as int) == f[k] by {}
    }
    if bounds.len() < 4 {
        return None;
    }
    let (h0, h1) = trim_range(cs, bounds[0].0, bounds[0].1);
    let (m0, m1) = trim_range(cs, bounds[1].0, bounds[1].1);
    let (s0, s1) = trim_range(cs, bounds[2].0, bounds[2].1);
    let (x0, x1) = trim_range(cs, bounds[3].0, bounds[3].1);
    let h = parse_u64(cs, h0, h1);
    let m = parse_u64(cs, m0, m1);
    let s = parse_u64(cs, s0, s1);
    let ms = parse_u64(cs, x0, x1);
    match (h, m, s, ms) {
        (Some(h), Some(m), Some(s), Some(ms)) => {
            let hm = if h <= u64::MAX / 60 {
                h * 60
            } else {
                u64::MAX
            };
            let total = if m <= u64::MAX - hm {
                hm + m
            } else {
                u64::MAX
            };
            Some((total, s, ms / 10))
        },
        _ => None,
    }
}

/// Start time of a block's timestamp line `HH:MM:SS,mmm --> ...` as
/// (total minutes, seconds, centiseconds).
pub fn parse_start(line: &str) -> (r: Option<(u64, u64, u64)>)
    ensures
        r == srt_start(line@),
{
    let cs = chars_of(line);
    parse_start_chars(&cs)
}

/// Length of `cs` without trailing carriage returns.
fn strip_crs_len(cs: &Vec<char>) -> (r: usize)
    ensures
        r <= cs.len(),
        cs@.subrange(0, r as int) == strip_crs(cs@),
{
    let mut n = cs.len();
    proof {
        assert(cs@.subrange(0, n as int) =~= cs@);
    }
    while n > 0 && cs[n - 1] == '\r'
        invariant
            n <= cs.len(),
            strip_crs(cs@) == strip_crs(cs@.subrange(0, n as int)),
        decreases n,
    {
        proof {
            assert(cs@.subrange(0, n as int).drop_last() =~= cs@.subrange(0, n - 1));
        }
        n -= 1;
    }
    n
}

/// Appends the LRC line of one block.
fn push_lrc_line(out: &mut String, t: (u64, u64, u64), parts: &Vec<Vec<char>>)
    ensures
        final(out)@ == old(out)@ + lrc_line(t, Seq::new(parts.len() as nat, |i: int| parts@[i]@)),
{
    let ghost pv = Seq::new(parts.len() as nat, |i: int| parts@[i]@);
    if parts.len() == 0 {
        return;
    }
    out.push('[');
    push_decimal_padded(out, t.0, 2);
    out.push(':');
    push_decimal_padded(out, t.1, 2);
    out.push('.');
    push_decimal_padded(out, t.2, 2);
    out.push(']');
    let ghost head = out@;
    let mut k: usize = 0;
    while k < parts.len()
        invariant
            k <= parts.len(),
            pv == Seq::new(parts.len() as nat, |i: int| parts@[i]@),
            out@ == head + join_spaces(pv.subrange(0, k as int)),
        decreases parts.len() - k,
    {
        proof {
            assert(pv.subrange(0, k + 1).drop_last() =~= pv.subrange(0, k as int));
        }
        if k > 0 {
            out.push(' ');
        }
        push_all(out, &parts[k]);
        proof {
            if k == 0 {
                assert(out@ =~= head + join_spaces(pv.subrange(0, 1)));
            } else {
                assert(out@ =~= head + join_spaces(pv.subrange(0, k + 1)));
            }
        }
        k += 1;
    }
    out.push('\n');
    proof {
        assert(pv.subrange(0, parts.len() as int) =~= pv);
    }
}

/// View of collected text lines.
pub open spec fn parts_view(parts: Seq<Vec<char>>) -> Seq<Seq<char>> {
    Seq::new(parts.len(), |j: int| parts[j]@)
}

/// Applies one input line to the conversion state.
fn apply_line(
    out: &mut String,
    collecting: &mut bool,
    t: &mut (u64, u64, u64),
    parts: &mut Vec<Vec<char>>,
    line: &Vec<char>,
    arrow_v: &Vec<char>,
)
    requires
        arrow_v@ == arrow(),
    ensures
        (final(out)@, *final(collecting), *final(t), parts_view(final(parts)@)) == srt_step(
            (old(out)@, *old(collecting), *old(t), parts_view(old(parts)@)),
            line@,
        ),
{
    proof {
        assert(line@.subrange(0, line.len() as int) =~= line@);
    }
    let ghost pv = parts_view(parts@);
    if !*collecting {
        if find_sub(line, 0, line.len(), arrow_v).is_some() {
            match parse_start_chars(line) {
                Some(t2) => {
                    *collecting = true;
                    *t = t2;
                    *parts = Vec::new();
                    proof {
                        assert(parts_view(parts@) =~= Seq::<Seq<char>>::empty());
                    }
                },
                None => {},
            }
        }
    } else {
        let n = strip_crs_len(line);
        if n == 0 {
            push_lrc_line(out, *t, parts);
            *collecting = false;
            *parts = Vec::new();
            proof {
                assert(parts_view(parts@) =~= Seq::<Seq<char>>::empty());
            }
        } else {
            let mut tl: Vec<char> = Vec::new();
            let mut k: usize = 0;
            while k < n
                invariant
                    k <= n <= line.len(),
                    tl@ == line@.subrange(0, k as int),
                decreases n - k,
            {
                tl.push(line[k]);
                k += 1;
                proof {
                    assert(tl@ =~= line@.subrange(0, k as int));
                }
            }
            parts.push(tl);
            proof {
                assert(parts_view(parts@) =~= pv.push(strip_crs(line@)));
            }
        }
    }
}

/// Converts SubRip text to LRC lyrics (empty when no block is found).
pub fn to_lrc(srt: &str) -> (r: String)
    ensures
        r@ == srt_to_lrc(srt@),
{
    let ls = split_lines(srt);
    let ghost lv = lines(srt@);
    let arrow_v: Vec<char> = vec!['-', '-', '>'];
    proof {
        assert(arrow_v@ =~= arrow());
    }
    let mut out = String::new();
    let mut collecting = false;
    let mut t: (u64, u64, u64) = (0, 0, 0);
    let mut parts: Vec<Vec<char>> = Vec::new();
    let mut i: usize = 0;
    proof {
        assert(parts_view(parts@) =~= Seq::<Seq<char>>::empty());
        assert(lv.subrange(0, 0) =~= Seq::<Seq<char>>::empty());
    }
    while i < ls.len()
        invariant
            ls.len() == lv.len(),
            forall|k: int| 0 <= k < ls.len() ==> (#[trigger] ls@[k])@ == lv[k],
            arrow_v@ == arrow(),
            i <= ls.len(),
            srt_fold(lv.subrange(0, i as int)) == (out@, collecting, t, parts_view(parts@)),
        decreases ls.len() - i,
    {
        proof {
            assert(lv.subrange(0, i + 1).drop_last() =~= lv.subrange(0, i as int));
            assert(lv.subrange(0, i + 1).last() == ls@[i as int]@);
        }
        apply_line(&mut out, &mut collecting, &mut t, &mut parts, &ls[i], &arrow_v);
        i += 1;
    }
    proof {
        assert(lv.subrange(0, ls.len() as int) =~= lv);
    }
    if collecting {
        push_lrc_line(&mut out, t, &parts);
        proof {
            assert(Seq::new(parts.len() as nat, |i: int| parts@[i]@) =~= parts_view(parts@));
        }
    }
    out
}

} // verus!
