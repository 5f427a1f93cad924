//! Character-level string helpers shared by the parsers and formatters:
//! conversion between `str` and character vectors, decimal rendering and
//! parsing, Unicode whitespace and trimming.

use vstd::prelude::*;
use vstd::utf8::{decode_utf8, valid_utf8};

verus! {

/// `String::push` appends one character.
pub assume_specification[ String::push ](s: &mut String, ch: char)
    ensures
        final(s)@ == old(s)@.push(ch),
;

/// The characters of `s`, in order.
pub fn chars_of(s: &str) -> (v: Vec<char>)
    ensures
        v@ == s@,
{
    let n = s.unicode_len();
    let mut v: Vec<char> = Vec::new();
    let mut i: usize = 0;
    while i < n
        invariant
            n == s@.len(),
            i <= n,
            v@ == s@.subrange(0, i as int),
        decreases n - i,
    {
        v.push(s.get_char(i));
        i += 1;
        proof {
            assert(v@ =~= s@.subrange(0, i as int));
        }
    }
    proof {
        assert(s@.subrange(0, n as int) =~= s@);
    }
    v
}

/// The string made of the characters `cs[lo..hi]`.
pub fn string_from_range(cs: &Vec<char>, lo: usize, hi: usize) -> (s: String)
    requires
        lo <= hi <= cs.len(),
    ensures
        s@ == cs@.subrange(lo as int, hi as int),
{
    let mut s = String::new();
    let mut i: usize = lo;
    while i < hi
        invariant
            lo <= i <= hi,
            hi <= cs.len(),
            s@ == cs@.subrange(lo as int, i as int),
        decreases hi - i,
    {
        s.push(cs[i]);
        i += 1;
        proof {
            assert(s@ =~= cs@.subrange(lo as int, i as int));
        }
    }
    s
}

/// The string made of all the characters of `cs`.
pub fn string_from_chars(cs: &Vec<char>) -> (s: String)
    ensures
        s@ == cs@,
{
    let s = string_from_range(cs, 0, cs.len());
    proof {
        assert(cs@.subrange(0, cs@.len() as int) =~= cs@);
    }
    s
}

/// Appends every character of `t` to `s`.
pub fn push_all(s: &mut String, tv: &Vec<char>)
    ensures
        final(s)@ == old(s)@ + tv@,
{
    let mut i: usize = 0;
    while i < tv.len()
        invariant
            i <= tv.len(),
            s@ == old(s)@ + tv@.subrange(0, i as int),
        decreases tv.len() - i,
    {
        s.push(tv[i]);
        i += 1;
        proof {
            assert(s@ =~= old(s)@ + tv@.subrange(0, i as int));
        }
    }
    proof {
        assert(tv@.subrange(0, tv.len() as int) =~= tv@);
    }
}

/// Appends the characters of `t` to `s`.
pub fn push_str(s: &mut String, t: &str)
    ensures
        final(s)@ == old(s)@ + t@,
{
    let tv = chars_of(t);
    let ghost tt = t@;
    let mut i: usize = 0;
    while i < tv.len()
        invariant
            i <= tv.len(),
            tv@ == tt,
            s@ == old(s)@ + tt.subrange(0, i as int),
        decreases tv.len() - i,
    {
        s.push(tv[i]);
        i += 1;
        proof {
            assert(s@ =~= old(s)@ + tt.subrange(0, i as int));
        }
    }
    proof {
        assert(tt.subrange(0, tv.len() as int) =~= tt);
    }
}

/// The decimal digit for `d < 10`.
pub open spec fn digit_char(d: nat) -> char {
    if d == 0 {
        '0'
    } else if d == 1 {
        '1'
    } else if d == 2 {
        '2'
    } else if d == 3 {
        '3'
    } else if d == 4 {
        '4'
    } else if d == 5 {
        '5'
    } else if d == 6 {
        '6'
    } else if d == 7 {
        '7'
    } else if d == 8 {
        '8'
    } else {
        '9'
    }
}

/// Decimal rendering of a natural number, without leading zeros.
pub open spec fn decimal(n: nat) -> Seq<char>
    decreases n,
{
    if n < 10 {
        seq![digit_char(n)]
    } else {
        decimal(n / 10).push(digit_char(n % 10))
    }
}

/// Decimal rendering padded with leading zeros to at least `width` digits.
pub open spec fn decimal_padded(n: nat, width: nat) -> Seq<char> {
    let d = decimal(n);
    if d.len() >= width {
        d
    } else {
        Seq::new((width - d.len()) as nat, |i: int| '0') + d
    }
}

/// The decimal digit character of `d`.
pub fn digit(d: u64) -> (c: char)
    requires
        d < 10,
    ensures
        c == digit_char(d as nat),
{
    if d == 0 {
        '0'
    } else if d == 1 {
        '1'
    } else if d == 2 {
        '2'
    } else if d == 3 {
        '3'
    } else if d == 4 {
        '4'
    } else if d == 5 {
        '5'
    } else if d == 6 {
        '6'
    } else if d == 7 {
        '7'
    } else if d == 8 {
        '8'
    } else {
        '9'
    }
}

/// Appends the decimal rendering of `n`.
pub fn push_decimal(s: &mut String, n: u64)
    ensures
        final(s)@ == old(s)@ + decimal(n as nat),
    decreases n,
{
    if n >= 10 {
        push_decimal(s, n / 10);
    }
    s.push(digit(n % 10));
    proof {
        if n >= 10 {
            assert(decimal(n as nat) == decimal((n / 10) as nat).push(digit_char((n % 10) as nat)));
        }
    }
}

/// The decimal rendering has at least one digit.
pub proof fn lemma_decimal_len(n: nat)
    ensures
        decimal(n).len() >= 1,
        n < 10 ==> decimal(n).len() == 1,
        10 <= n < 100 ==> decimal(n).len() == 2,
    decreases n,
{
    if n >= 10 {
        lemma_decimal_len(n / 10);
    }
}

/// Appends the decimal rendering of `n`, left-padded with zeros to `width` digits.
pub fn push_decimal_padded(s: &mut String, n: u64, width: usize)
    ensures
        final(s)@ == old(s)@ + decimal_padded(n as nat, width as nat),
{
    let mut t = String::new();
    push_decimal(&mut t, n);
    let tv = chars_of(t.as_str());
    let ghost d = decimal(n as nat);
    let mut pad: usize = 0;
    let ghost s0 = s@;
    if tv.len() < width {
        let need = width - tv.len();
        while pad < need
            invariant
                pad <= need,
                s@ == s0 + Seq::new(pad as nat, |i: int| '0'),
            decreases need - pad,
        {
            s.push('0');
            pad += 1;
            proof {
                assert(s@ =~= s0 + Seq::new(pad as nat, |i: int| '0'));
            }
        }
    }
    let ghost s1 = s@;
    push_all(s, &tv);
    proof {
        if d.len() < width {
            assert(s@ =~= s0 + (Seq::new((width - d.len()) as nat, |i: int| '0') + d));
        } else {
            assert(s1 == s0 + Seq::new(0, |i: int| '0'));
            assert(s@ =~= s0 + d);
        }
    }
}

/// Whether two strings have the same characters.
pub fn str_eq(a: &str, b: &str) -> (r: bool)
    ensures
        r == (a@ == b@),
{
    let av = chars_of(a);
    let bv = chars_of(b);
    if av.len() != bv.len() {
        return false;
    }
    let mut i: usize = 0;
    while i < av.len()
        invariant
            av@ == a@,
            bv@ == b@,
            av.len() == bv.len(),
            i <= av.len(),
            forall|k: int| 0 <= k < i ==> av@[k] == bv@[k],
        decreases av.len() - i,
    {
        if av[i] != bv[i] {
            return false;
        }
        i += 1;
    }
    proof {
        assert(av@ =~= bv@);
    }
    true
}

/// Unicode `White_Space` characters (what `char::is_whitespace` accepts).
pub open spec fn is_ws(c: char) -> bool {
    let u = c as u32;
    ||| 0x09 <= u <= 0x0D
    ||| u == 0x20
    ||| u == 0x85
    ||| u == 0xA0
    ||| u == 0x1680
    ||| 0x2000 <= u <= 0x200A
    ||| u == 0x2028
    ||| u == 0x2029
    ||| u == 0x202F
    ||| u == 0x205F
    ||| u == 0x3000
}

/// Whether `c` is a Unicode whitespace character.
pub fn is_whitespace(c: char) -> (r: bool)
    ensures
        r == is_ws(c),
{
    let u = c as u32;
    (0x09 <= u && u <= 0x0D) || u == 0x20 || u == 0x85 || u == 0xA0 || u == 0x1680 || (0x2000 <= u
        && u <= 0x200A) || u == 0x2028 || u == 0x2029 || u == 0x202F || u == 0x205F || u == 0x3000
}

/// Number of leading characters of `s` that satisfy whitespace.
pub open spec fn lead_ws(s: Seq<char>) -> nat
    decreases s.len(),
{
    if s.len() > 0 && is_ws(s[0]) {
        1 + lead_ws(s.drop_first())
    } else {
        0
    }
}

/// Number of trailing whitespace characters of `s`.
pub open spec fn trail_ws(s: Seq<char>) -> nat
    decreases s.len(),
{
    if s.len() > 0 && is_ws(s.last()) {
        1 + trail_ws(s.drop_last())
    } else {
        0
    }
}

/// `s` without leading whitespace.
pub open spec fn trim_start(s: Seq<char>) -> Seq<char> {
    s.subrange(lead_ws(s) as int, s.len() as int)
}

/// `s` without trailing whitespace.
pub open spec fn trim_end(s: Seq<char>) -> Seq<char> {
    s.subrange(0, s.len() - trail_ws(s))
}

/// `s` without leading or trailing whitespace.
pub open spec fn trim(s: Seq<char>) -> Seq<char> {
    trim_end(trim_start(s))
}

/// Leading whitespace count is at most the length, and it stops at a non-space.
pub proof fn lemma_lead_ws(s: Seq<char>)
    ensures
        lead_ws(s) <= s.len(),
        forall|i: int| 0 <= i < lead_ws(s) ==> is_ws(#[trigger] s[i]),
        lead_ws(s) < s.len() ==> !is_ws(s[lead_ws(s) as int]),
    decreases s.len(),
{
    if s.len() > 0 && is_ws(s[0]) {
        lemma_lead_ws(s.drop_first());
        assert forall|i: int| 0 <= i < lead_ws(s) implies is_ws(#[trigger] s[i]) by {
            if i > 0 {
                assert(s[i] == s.drop_first()[i - 1]);
            }
        }
    }
}

/// Trailing whitespace count is at most the length, and it stops at a non-space.
pub proof fn lemma_trail_ws(s: Seq<char>)
    ensures
        trail_ws(s) <= s.len(),
        forall|i: int| s.len() - trail_ws(s) <= i < s.len() ==> is_ws(#[trigger] s[i]),
        trail_ws(s) < s.len() ==> !is_ws(s[s.len() - trail_ws(s) - 1]),
    decreases s.len(),
{
    if s.len() > 0 && is_ws(s.last()) {
        lemma_trail_ws(s.drop_last());
        assert forall|i: int| s.len() - trail_ws(s) <= i < s.len() implies is_ws(#[trigger] s[i]) by {
            if i < s.len() - 1 {
                assert(s[i] == s.drop_last()[i]);
            }
        }
    }
}

/// Index of the first non-whitespace character of `cs[lo..hi]` (or `hi`).
pub fn skip_ws_forward(cs: &Vec<char>, lo: usize, hi: usize) -> (r: usize)
    requires
        lo <= hi <= cs.len(),
    ensures
        lo + lead_ws(cs@.subrange(lo as int, hi as int)) == r,
        lo <= r <= hi,
{
    let mut i = lo;
    while i < hi && is_whitespace(cs[i])
        invariant
            lo <= i <= hi <= cs.len(),
            forall|k: int| lo <= k < i ==> is_ws(#[trigger] cs@[k]),
        decreases hi - i,
    {
        i += 1;
    }
    proof {
        lemma_lead_ws_exact(cs@.subrange(lo as int, hi as int), (i - lo) as nat);
    }
    i
}

/// Index just past the last non-whitespace character of `cs[lo..hi]` (or `lo`).
pub fn skip_ws_backward(cs: &Vec<char>, lo: usize, hi: usize) -> (r: usize)
    requires
        lo <= hi <= cs.len(),
    ensures
        hi - trail_ws(cs@.subrange(lo as int, hi as int)) == r,
        lo <= r <= hi,
{
    let mut j = hi;
    while j > lo && is_whitespace(cs[j - 1])
        invariant
            lo <= j <= hi <= cs.len(),
            forall|k: int| j <= k < hi ==> is_ws(#[trigger] cs@[k]),
        decreases j - lo,
    {
        j -= 1;
    }
    proof {
        lemma_trail_ws_exact(cs@.subrange(lo as int, hi as int), (hi - j) as nat);
    }
    j
}

/// `lead_ws` is the length of the maximal whitespace prefix.
pub proof fn lemma_lead_ws_exact(s: Seq<char>, k: nat)
    requires
        k <= s.len(),
        forall|i: int| 0 <= i < k ==> is_ws(#[trigger] s[i]),
        k < s.len() ==> !is_ws(s[k as int]),
    ensures
        lead_ws(s) == k,
    decreases k,
{
    if k > 0 {
        let t = s.drop_first();
        assert forall|i: int| 0 <= i < k - 1 implies is_ws(#[trigger] t[i]) by {
            assert(t[i] == s[i + 1]);
        }
        if k - 1 < t.len() {
            assert(t[k - 1] == s[k as int]);
        }
        lemma_lead_ws_exact(t, (k - 1) as nat);
    }
}

/// `trail_ws` is the length of the maximal whitespace suffix.
pub proof fn lemma_trail_ws_exact(s: Seq<char>, k: nat)
    requires
        k <= s.len(),
        forall|i: int| s.len() - k <= i < s.len() ==> is_ws(#[trigger] s[i]),
        k < s.len() ==> !is_ws(s[s.len() - k - 1]),
    ensures
        trail_ws(s) == k,
    decreases k,
{
    if k > 0 {
        let t = s.drop_last();
        assert forall|i: int| t.len() - (k - 1) <= i < t.len() implies is_ws(#[trigger] t[i]) by {
            assert(t[i] == s[i]);
        }
        if k - 1 < t.len() {
            assert(t[t.len() - (k - 1) - 1] == s[s.len() - k - 1]);
        }
        lemma_trail_ws_exact(t, (k - 1) as nat);
    }
}

/// Bounds of `cs[lo..hi]` without its leading and trailing whitespace.
pub fn trim_range(cs: &Vec<char>, lo: usize, hi: usize) -> (r: (usize, usize))
    requires
        lo <= hi <= cs.len(),
    ensures
        lo <= r.0 <= r.1 <= hi,
        cs@.subrange(r.0 as int, r.1 as int) == trim(cs@.subrange(lo as int, hi as int)),
{
    let a = skip_ws_forward(cs, lo, hi);
    let b = skip_ws_backward(cs, a, hi);
    proof {
        let sub = cs@.subrange(lo as int, hi as int);
        assert(cs@.subrange(a as int, hi as int) =~= trim_start(sub));
        assert(cs@.subrange(a as int, b as int) =~= trim(sub));
    }
    (a, b)
}

/// `s` without leading and trailing whitespace.
pub fn trim_str(s: &str) -> (r: String)
    ensures
        r@ == trim(s@),
{
    let cs = chars_of(s);
    let lo = skip_ws_forward(&cs, 0, cs.len());
    let hi = skip_ws_backward(&cs, lo, cs.len());
    proof {
        assert(cs@.subrange(0, cs.len() as int) =~= cs@);
        assert(cs@.subrange(lo as int, cs.len() as int) =~= trim_start(s@));
        assert(cs@.subrange(lo as int, hi as int) =~= trim(s@));
    }
    string_from_range(&cs, lo, hi)
}

/// One split step of `str::lines`: lines finished so far and the line in progress.
pub open spec fn lines_fold(s: Seq<char>) -> (Seq<Seq<char>>, Seq<char>)
    decreases s.len(),
{
    if s.len() == 0 {
        (Seq::empty(), Seq::empty())
    } else {
        let (done, cur) = lines_fold(s.drop_last());
        if s.last() == '\n' {
            (done.push(strip_cr(cur)), Seq::empty())
        } else {
            (done, cur.push(s.last()))
        }
    }
}

/// A line ended by `\n` loses one trailing `\r`.
pub open spec fn strip_cr(line: Seq<char>) -> Seq<char> {
    if line.len() > 0 && line.last() == '\r' {
        line.drop_last()
    } else {
        line
    }
}

/// The lines of `s` as `str::lines` yields them: split at `\n`, a `\r` before
/// the `\n` dropped, and no empty line after a final `\n`.
pub open spec fn lines(s: Seq<char>) -> Seq<Seq<char>> {
    let (done, cur) = lines_fold(s);
    if cur.len() > 0 {
        done.push(cur)
    } else {
        done
    }
}

/// The lines of `s`.
pub fn split_lines(s: &str) -> (r: Vec<Vec<char>>)
    ensures
        r.len() == lines(s@).len(),
        forall|i: int| 0 <= i < r.len() ==> (#[trigger] r@[i])@ == lines(s@)[i],
{
    let cs = chars_of(s);
    let mut done: Vec<Vec<char>> = Vec::new();
    let mut cur: Vec<char> = Vec::new();
    let mut i: usize = 0;
    while i < cs.len()
        invariant
            cs@ == s@,
            i <= cs.len(),
            done.len() == lines_fold(cs@.subrange(0, i as int)).0.len(),
            forall|k: int|
                0 <= k < done.len() ==> (#[trigger] done@[k])@ == lines_fold(
                    cs@.subrange(0, i as int),
                ).0[k],
            cur@ == lines_fold(cs@.subrange(0, i as int)).1,
        decreases cs.len() - i,
    {
        let c = cs[i];
        proof {
            assert(cs@.subrange(0, i + 1).drop_last() =~= cs@.subrange(0, i as int));
        }
        if c == '\n' {
            let mut line = cur;
            let n = line.len();
            if n > 0 && line[n - 1] == '\r' {
                line.pop();
                proof {
                    assert(line@ =~= strip_cr(lines_fold(cs@.subrange(0, i as int)).1));
                }
            }
            done.push(line);
            cur = Vec::new();
        } else {
            cur.push(c);
        }
        i += 1;
    }
    proof {
        assert(cs@.subrange(0, cs.len() as int) =~= cs@);
    }
    if cur.len() > 0 {
        done.push(cur);
    }
    done
}

/// Value of an ASCII digit.
pub open spec fn digit_value(c: char) -> nat {
    ((c as u32) - ('0' as u32)) as nat
}

/// All characters are ASCII digits.
pub open spec fn all_digits(s: Seq<char>) -> bool {
    forall|i: int| 0 <= i < s.len() ==> '0' <= #[trigger] s[i] <= '9'
}

/// Value of a string of ASCII digits.
pub open spec fn digits_value(s: Seq<char>) -> nat
    decreases s.len(),
{
    if s.len() == 0 {
        0
    } else {
        digits_value(s.drop_last()) * 10 + digit_value(s.last())
    }
}

/// What `str::parse::<u64>` accepts: an optional `+`, then one or more
/// ASCII digits whose value fits in `u64`.
pub open spec fn parse_u64_spec(s: Seq<char>) -> Option<u64> {
    let d = if s.len() > 0 && s[0] == '+' {
        s.drop_first()
    } else {
        s
    };
    if d.len() > 0 && all_digits(d) && digits_value(d) <= u64::MAX {
        Some(digits_value(d) as u64)
    } else {
        None
    }
}

/// Parses `cs[lo..hi]` as `str::parse::<u64>` does.
pub fn parse_u64(cs: &Vec<char>, lo: usize, hi: usize) -> (r: Option<u64>)
    requires
        lo <= hi <= cs.len(),
    ensures
        r == parse_u64_spec(cs@.subrange(lo as int, hi as int)),
{
    let ghost s = cs@.subrange(lo as int, hi as int);
    let mut i = lo;
    if i < hi && cs[i] == '+' {
        i += 1;
    }
    let ghost d = cs@.subrange(i as int, hi as int);
    proof {
        if lo < hi && cs@[lo as int] == '+' {
            assert(d =~= s.drop_first());
        } else {
            assert(d =~= s);
        }
    }
    if i == hi {
        return None;
    }
    let start = i;
    let mut v: u64 = 0;
    while i < hi
        invariant
            lo <= start <= i <= hi <= cs.len(),
            start < hi,
            d == cs@.subrange(start as int, hi as int),
            parse_u64_spec(cs@.subrange(lo as int, hi as int)) == (if d.len() > 0 && all_digits(d)
                && digits_value(d) <= u64::MAX {
                Some(digits_value(d) as u64)
            } else {
                None
            }),
            all_digits(cs@.subrange(start as int, i as int)),
            v as nat == digits_value(cs@.subrange(start as int, i as int)),
        decreases hi - i,
    {
        let c = cs[i];
        proof {
            assert(cs@.subrange(start as int, i + 1).drop_last() =~= cs@.subrange(start as int, i as int));
        }
        if !('0' <= c && c <= '9') {
            proof {
                assert(d[i - start] == c);
            }
            return None;
        }
        let dv = (c as u32 - '0' as u32) as u64;
        if v > (u64::MAX - dv) / 10 {
            proof {
                lemma_digits_prefix_le(d, (i - start + 1) as nat);
                assert(digits_value(cs@.subrange(start as int, i + 1)) == v * 10 + dv);
                assert(v * 10 + dv > u64::MAX) by (nonlinear_arith)
                    requires
                        v > (u64::MAX - dv) / 10,
                        dv <= 9,
                ;
                if all_digits(d) {
                    assert(d.subrange(0, i - start + 1) =~= cs@.subrange(start as int, i + 1));
                }
            }
            return None;
        }
        proof {
            assert(v * 10 + dv <= u64::MAX) by (nonlinear_arith)
                requires
                    v <= (u64::MAX - dv) / 10,
                    dv <= 9,
            ;
        }
        v = v * 10 + dv;
        i += 1;
        proof {
            assert(all_digits(cs@.subrange(start as int, i as int)));
        }
    }
    proof {
        assert(cs@.subrange(start as int, hi as int) =~= d);
    }
    Some(v)
}

/// The value of a digit string is at least the value of any of its prefixes.
pub proof fn lemma_digits_prefix_le(d: Seq<char>, k: nat)
    requires
        k <= d.len(),
    ensures
        all_digits(d) ==> digits_value(d.subrange(0, k as int)) <= digits_value(d),
    decreases d.len() - k,
{
    if k < d.len() {
        lemma_digits_prefix_le(d, k + 1);
        let p = d.subrange(0, k as int + 1);
        assert(p.drop_last() =~= d.subrange(0, k as int));
        if all_digits(d) {
            assert(p.last() == d[k as int]);
        }
    } else {
        assert(d.subrange(0, k as int) =~= d);
    }
}

/// Index of the first occurrence of `pat` in `s` at or after `i`.
pub open spec fn find_sub_from(s: Seq<char>, pat: Seq<char>, i: int) -> Option<int>
    decreases s.len() + 1 - i,
{
    if i < 0 || i + pat.len() > s.len() {
        None
    } else if s.subrange(i, i + pat.len()) == pat {
        Some(i)
    } else {
        find_sub_from(s, pat, i + 1)
    }
}

/// A found occurrence lies within `s` at or after `i` and matches `pat`.
pub proof fn lemma_find_sub_from(s: Seq<char>, pat: Seq<char>, i: int)
    ensures
        find_sub_from(s, pat, i) matches Some(k) ==> i <= k && k + pat.len() <= s.len()
            && s.subrange(k, k + pat.len()) == pat,
    decreases s.len() + 1 - i,
{
    if !(i < 0 || i + pat.len() > s.len()) && s.subrange(i, i + pat.len()) != pat {
        lemma_find_sub_from(s, pat, i + 1);
    }
}

/// First occurrence of `pat` in `cs[lo..hi]`, as an index into `cs`.
pub fn find_sub(cs: &Vec<char>, lo: usize, hi: usize, pat: &Vec<char>) -> (r: Option<usize>)
    requires
        lo <= hi <= cs.len(),
    ensures
        match find_sub_from(cs@.subrange(lo as int, hi as int), pat@, 0) {
            Some(k) => r == Some((lo + k) as usize),
            None => r is None,
        },
{
    let ghost s = cs@.subrange(lo as int, hi as int);
    let n = pat.len();
    let mut i = lo;
    while i < hi && n <= hi - i
        invariant
            lo <= i <= hi <= cs.len(),
            n == pat@.len(),
            s == cs@.subrange(lo as int, hi as int),
            find_sub_from(s, pat@, 0) == find_sub_from(s, pat@, i - lo),
        decreases hi - i,
    {
        let mut j: usize = 0;
        let mut same = true;
        while j < n
            invariant
                i + n <= hi <= cs.len(),
                n == pat@.len(),
                j <= n,
                same == (forall|t: int| 0 <= t < j ==> cs@[i + t] == pat@[t]),
            decreases n - j,
        {
            if cs[i + j] != pat[j] {
                same = false;
            }
            j += 1;
        }
        if same {
            proof {
                assert(s.subrange(i - lo, i - lo + n) =~= pat@);
            }
            return Some(i);
        }
        proof {
            let k = choose|t: int| 0 <= t < n && cs@[i + t] != pat@[t];
            assert(s.subrange(i - lo, i - lo + n)[k] != pat@[k]);
        }
        i += 1;
    }
    if n == 0 && i == hi {
        proof {
            assert(s.subrange(i - lo, i - lo + 0) =~= pat@);
        }
        return Some(i);
    }
    None
}

/// Decimal renderings consist of ASCII digits.
pub proof fn lemma_decimal_digits(n: nat)
    ensures
        forall|i: int| 0 <= i < decimal(n).len() ==> '0' <= #[trigger] decimal(n)[i] <= '9',
    decreases n,
{
    if n >= 10 {
        lemma_decimal_digits(n / 10);
        let d = decimal(n);
        assert forall|i: int| 0 <= i < d.len() implies '0' <= #[trigger] d[i] <= '9' by {
            if i < d.len() - 1 {
                assert(d[i] == decimal(n / 10)[i]);
            }
        }
    }
}

/// The UTF-8 bytes of ASCII text are its characters' codes.
pub proof fn lemma_ascii_bytes(s: Seq<char>)
    requires
        vstd::utf8::is_ascii_chars(s),
    ensures
        vstd::utf8::encode_utf8(s) == s.map_values(|c: char| c as u8),
{
    vstd::utf8::is_ascii_chars_encode_utf8(s);
    assert(vstd::utf8::encode_utf8(s) =~= s.map_values(|c: char| c as u8));
}

/// Decimal text of a signed integer, as `i64::to_string` writes it.
pub open spec fn int_text(n: i64) -> Seq<char> {
    if n < 0 {
        seq!['-'] + decimal((-(n as int)) as nat)
    } else {
        decimal(n as nat)
    }
}

/// Appends the decimal text of a signed integer.
pub fn push_i64(s: &mut String, n: i64)
    ensures
        final(s)@ == old(s)@ + int_text(n),
{
    if n < 0 {
        s.push('-');
        let m: u64 = if n == i64::MIN {
            0x8000_0000_0000_0000
        } else {
            (-n) as u64
        };
        push_decimal(s, m);
        proof {
            assert(final(s)@ =~= old(s)@ + int_text(n));
        }
    } else {
        push_decimal(s, n as u64);
    }
}


/// What `str::parse::<i64>` accepts: an optional `+` or `-`, then one or
/// more ASCII digits whose signed value fits in `i64`.
pub open spec fn parse_i64_spec(s: Seq<char>) -> Option<i64> {
    let neg = s.len() > 0 && s[0] == '-';
    let d = if s.len() > 0 && (s[0] == '+' || s[0] == '-') {
        s.drop_first()
    } else {
        s
    };
    if d.len() > 0 && all_digits(d) {
        let v = digits_value(d);
        if neg {
            if v <= 0x8000_0000_0000_0000 {
                Some((-(v as int)) as i64)
            } else {
                None
            }
        } else if v <= i64::MAX {
            Some(v as i64)
        } else {
            None
        }
    } else {
        None
    }
}

/// Parses a text as `str::parse::<i64>` does.
pub fn parse_i64(text: &str) -> (r: Option<i64>)
    ensures
        r == parse_i64_spec(text@),
{
    let cs = chars_of(text);
    let n = cs.len();
    let mut i: usize = 0;
    let mut neg = false;
    if n > 0 && (cs[0] == '+' || cs[0] == '-') {
        neg = cs[0] == '-';
        i = 1;
    }
    let ghost d = cs@.subrange(i as int, n as int);
    proof {
        if n > 0 && (cs@[0] == '+' || cs@[0] == '-') {
            assert(d =~= text@.drop_first());
        } else {
            assert(d =~= text@);
        }
    }
    if i >= n || !('0' <= cs[i] && cs[i] <= '9') {
        proof {
            if d.len() > 0 {
                assert(d[0] == cs@[i as int]);
            }
        }
        return None;
    }
    proof {
        assert(d[0] == cs@[i as int]);
        assert(d[0] != '+');
    }
    match parse_u64(&cs, i, n) {
        None => {
            proof {
                if all_digits(d) {
                    assert(digits_value(d) > u64::MAX);
                }
            }
            None
        },
        Some(v) => {
            if neg {
                if v <= 0x8000_0000_0000_0000u64 {
                    if v == 0x8000_0000_0000_0000u64 {
                        Some(i64::MIN)
                    } else {
                        Some(-(v as i64))
                    }
                } else {
                    None
                }
            } else if v <= i64::MAX as u64 {
                Some(v as i64)
            } else {
                None
            }
        },
    }
}

/// What `String::from_utf8` reports for bytes that are not valid UTF-8.
pub uninterp spec fn utf8_error_text(bytes: Seq<u8>) -> Seq<char>;

/// `String::from_utf8`: the text of valid UTF-8, else the error's Display
/// text.
#[verifier::external_body]
pub(crate) fn utf8_or_error(bytes: &[u8]) -> (r: Result<String, String>)
    ensures
        valid_utf8(bytes@) <==> r is Ok,
        r is Ok ==> r->Ok_0@ == decode_utf8(bytes@),
        r is Err ==> r->Err_0@ == utf8_error_text(bytes@),
{
    match String::from_utf8(bytes.to_vec()) {
        Ok(s) => Ok(s),
        Err(e) => Err(e.to_string()),
    }
}


} // verus!
