//! File-name sanitising: characters that are illegal in file names on the
//! common platforms become `_`, surrounding spaces and dots go, and the name
//! is cut to at most 200 bytes of UTF-8 on a character boundary.

use vstd::prelude::*;
use vstd::utf8::{encode_scalar, encode_utf8};

use vstd::arithmetic::power2::{lemma2_to64, lemma2_to64_rest, lemma_pow2_pos, lemma_pow2_unfold, pow2};

use crate::text::{chars_of, decimal, decimal_padded, push_decimal, push_decimal_padded, push_str, string_from_range};

verus! {

/// Characters that file names must not contain.
pub open spec fn is_illegal(c: char) -> bool {
    c == '<' || c == '>' || c == ':' || c == '"' || c == '/' || c == '\\' || c == '|' || c == '?'
        || c == '*'
}

/// Characters trimmed from both ends of a file name.
pub open spec fn is_dot_space(c: char) -> bool {
    c == ' ' || c == '.'
}

/// Number of leading characters satisfying `is_dot_space`.
pub open spec fn lead_dot_space(s: Seq<char>) -> nat
    decreases s.len(),
{
    if s.len() > 0 && is_dot_space(s[0]) {
        1 + lead_dot_space(s.drop_first())
    } else {
        0
    }
}

/// Number of trailing characters satisfying `is_dot_space`.
pub open spec fn trail_dot_space(s: Seq<char>) -> nat
    decreases s.len(),
{
    if s.len() > 0 && is_dot_space(s.last()) {
        1 + trail_dot_space(s.drop_last())
    } else {
        0
    }
}

/// Illegal characters replaced by `_`.
pub open spec fn replace_illegal(s: Seq<char>) -> Seq<char> {
    s.map_values(|c: char| if is_illegal(c) { '_' } else { c })
}

/// `s` without leading and trailing spaces and dots.
pub open spec fn trim_dot_space(s: Seq<char>) -> Seq<char> {
    let a = lead_dot_space(s);
    let t = s.subrange(a as int, s.len() as int);
    t.subrange(0, t.len() - trail_dot_space(t))
}

/// UTF-8 width of a character.
pub open spec fn width(c: char) -> nat {
    encode_scalar(c as u32).len()
}

/// Number of leading characters of `s` whose UTF-8 encoding fits in `budget` bytes.
pub open spec fn fit_chars(s: Seq<char>, budget: nat) -> nat
    decreases s.len(),
{
    if s.len() == 0 || width(s[0]) > budget {
        0
    } else {
        1 + fit_chars(s.drop_first(), (budget - width(s[0])) as nat)
    }
}

/// Longest byte length of a sanitised name.
pub open spec fn max_name_bytes() -> nat {
    200
}

/// The sanitised name: illegal characters replaced, surrounding spaces and
/// dots trimmed, cut to the longest character prefix of at most 200 UTF-8
/// bytes; `unknown` when nothing is left.
pub open spec fn sanitized(s: Seq<char>) -> Seq<char> {
    let t = trim_dot_space(replace_illegal(s));
    let cut = t.take(fit_chars(t, max_name_bytes()) as int);
    if cut.len() == 0 {
        "unknown"@
    } else {
        cut
    }
}

/// UTF-8 width of a character: 1 to 4 bytes by code point.
pub fn char_width(c: char) -> (w: usize)
    ensures
        w == width(c),
        1 <= w <= 4,
{
    let u = c as u32;
    if u <= 0x7F {
        1
    } else if u <= 0x7FF {
        2
    } else if u <= 0xFFFF {
        3
    } else {
        4
    }
}

/// UTF-8 length of a sequence is the sum of its characters' widths, taken
/// from the front.
pub proof fn lemma_encode_len_front(s: Seq<char>)
    ensures
        s.len() > 0 ==> encode_utf8(s).len() == width(s[0]) + encode_utf8(s.drop_first()).len(),
{
}

/// The characters counted by `fit_chars` fit in the budget.
pub proof fn lemma_fit_chars(s: Seq<char>, budget: nat)
    ensures
        fit_chars(s, budget) <= s.len(),
        encode_utf8(s.take(fit_chars(s, budget) as int)).len() <= budget,
    decreases s.len(),
{
    if s.len() > 0 && width(s[0]) <= budget {
        let t = s.drop_first();
        lemma_fit_chars(t, (budget - width(s[0])) as nat);
        let k = fit_chars(s, budget);
        assert(s.take(k as int).drop_first() =~= t.take((k - 1) as int));
        assert(s.take(k as int)[0] == s[0]);
        lemma_encode_len_front(s.take(k as int));
    } else {
        assert(s.take(0) =~= Seq::<char>::empty());
    }
}

/// Replaces illegal characters, trims spaces and dots at both ends, cuts
/// the name to at most 200 bytes on a character boundary, and names an
/// empty result `unknown`.
pub fn sanitize_filename(filename: &str) -> (r: String)
    ensures
        r@ == sanitized(filename@),
{
    let cs = chars_of(filename);
    let n = cs.len();
    let mut mapped: Vec<char> = Vec::new();
    let mut i: usize = 0;
    while i < n
        invariant
            n == cs.len(),
            i <= n,
            mapped@ == replace_illegal(cs@.subrange(0, i as int)),
        decreases n - i,
    {
        let c = cs[i];
        let d = if c == '<' || c == '>' || c == ':' || c == '"' || c == '/' || c == '\\' || c == '|'
            || c == '?' || c == '*' {
            '_'
        } else {
            c
        };
        mapped.push(d);
        i += 1;
        proof {
            assert(mapped@ =~= replace_illegal(cs@.subrange(0, i as int)));
        }
    }
    proof {
        assert(cs@.subrange(0, n as int) =~= filename@);
    }
    let ghost m = mapped@;
    proof {
        assert(mapped@.len() == n);
        assert(m.subrange(0, n as int) =~= m);
    }
    let mut a: usize = 0;
    while a < n && (mapped[a] == ' ' || mapped[a] == '.')
        invariant
            n == mapped.len(),
            a <= n,
            m == mapped@,
            lead_dot_space(m) == a + lead_dot_space(m.subrange(a as int, n as int)),
        decreases n - a,
    {
        proof {
            assert(m.subrange(a as int, n as int).drop_first() =~= m.subrange(a + 1, n as int));
        }
        a += 1;
    }
    proof {
        if a < n {
            assert(!is_dot_space(m.subrange(a as int, n as int)[0]));
        }
        assert(m.subrange(0, n as int) =~= m);
    }
    let ghost t = m.subrange(a as int, n as int);
    let mut b: usize = n;
    proof {
        assert(t.subrange(0, (b - a) as int) =~= t);
    }
    while b > a && (mapped[b - 1] == ' ' || mapped[b - 1] == '.')
        invariant
            a <= b <= n == mapped.len(),
            m == mapped@,
            t == m.subrange(a as int, n as int),
            trail_dot_space(t) == (n - b) + trail_dot_space(t.subrange(0, (b - a) as int)),
        decreases b - a,
    {
        proof {
            assert(t.subrange(0, (b - a) as int).drop_last() =~= t.subrange(0, (b - 1 - a) as int));
        }
        b -= 1;
    }
    let ghost tr = m.subrange(a as int, b as int);
    proof {
        assert(t.subrange(0, t.len() - trail_dot_space(t)) =~= tr);
    }
    let mut used: usize = 0;
    let mut e = a;
    while e < b && used + char_width(mapped[e]) <= 200
        invariant
            a <= e <= b <= n == mapped.len(),
            m == mapped@,
            tr == m.subrange(a as int, b as int),
            used <= 200,
            fit_chars(tr, 200) == (e - a) + fit_chars(m.subrange(e as int, b as int), (200 - used) as nat),
        decreases b - e,
    {
        proof {
            assert(m.subrange(e as int, b as int).drop_first() =~= m.subrange(e + 1, b as int));
        }
        used = used + char_width(mapped[e]);
        e += 1;
    }
    proof {
        assert(tr.take((e - a) as int) =~= m.subrange(a as int, e as int));
    }
    if e == a {
        return String::from_str("unknown");
    }
    string_from_range(&mapped, a, e)
}

/// A sanitised name is never empty, holds no illegal character (or is
/// `unknown`), and a non-`unknown` result fits in 200 bytes of UTF-8.
pub proof fn lemma_sanitized_properties(s: Seq<char>)
    ensures
        sanitized(s).len() > 0 || sanitized(s) == "unknown"@,
        sanitized(s) != "unknown"@ ==> encode_utf8(sanitized(s)).len() <= max_name_bytes(),
        sanitized(s) != "unknown"@ ==> forall|i: int|
            0 <= i < sanitized(s).len() ==> !is_illegal(#[trigger] sanitized(s)[i]),
{
    let t = trim_dot_space(replace_illegal(s));
    lemma_fit_chars(t, max_name_bytes());
    let r = replace_illegal(s);
    let a = lead_dot_space(r);
    lemma_lead_dot_space(r);
    let u = r.subrange(a as int, r.len() as int);
    lemma_trail_dot_space(u);
    assert forall|i: int| 0 <= i < t.len() implies !is_illegal(#[trigger] t[i]) by {
        assert(t[i] == r[a + i]);
    }
}

/// Leading count never exceeds the length.
proof fn lemma_lead_dot_space(s: Seq<char>)
    ensures
        lead_dot_space(s) <= s.len(),
    decreases s.len(),
{
    if s.len() > 0 && is_dot_space(s[0]) {
        lemma_lead_dot_space(s.drop_first());
    }
}

/// Trailing count never exceeds the length.
proof fn lemma_trail_dot_space(s: Seq<char>)
    ensures
        trail_dot_space(s) <= s.len(),
    decreases s.len(),
{
    if s.len() > 0 && is_dot_space(s.last()) {
        lemma_trail_dot_space(s.drop_last());
    }
}

/// Number of binary digits of `n` (0 for 0).
pub open spec fn bit_len(n: nat) -> nat
    decreases n,
{
    if n == 0 {
        0
    } else {
        1 + bit_len(n / 2)
    }
}

/// `a / d` rounded to the nearest integer, ties to the even neighbour.
pub open spec fn round_div(a: nat, d: nat) -> nat {
    let q = a / d;
    let rem = a % d;
    if rem * 2 > d || (rem * 2 == d && q % 2 == 1) {
        q + 1
    } else {
        q
    }
}

/// The value of `n` as a double: `n` itself when it has at most 53
/// significant bits, otherwise `n` rounded to 53 significant bits (ties to even).
pub open spec fn f64_value(n: nat) -> nat {
    if bit_len(n) <= 53 {
        n
    } else {
        let step = pow2((bit_len(n) - 53) as nat);
        round_div(n, step) * step
    }
}

/// Index of the display unit (B, KB, MB, GB, TB) of a byte count: the
/// number of times it can be divided by 1024 while it stays at least 1024,
/// at most four.
pub open spec fn size_unit(v: nat) -> nat {
    if v >= pow2(40) {
        4
    } else if v >= pow2(30) {
        3
    } else if v >= pow2(20) {
        2
    } else if v >= pow2(10) {
        1
    } else {
        0
    }
}

/// Name of a display unit.
pub open spec fn unit_name(k: nat) -> Seq<char> {
    if k == 0 {
        "B"@
    } else if k == 1 {
        "KB"@
    } else if k == 2 {
        "MB"@
    } else if k == 3 {
        "GB"@
    } else {
        "TB"@
    }
}

/// Human-readable size: `0B` for zero, otherwise the size in its unit with
/// two decimals (rounded half to even, as floating-point formatting does)
/// followed by the unit name.
pub open spec fn file_size_text(n: nat) -> Seq<char> {
    if n == 0 {
        "0B"@
    } else {
        let v = f64_value(n);
        let k = size_unit(v);
        let h = round_div(v * 100, pow2(10 * k));
        decimal(h / 100) + "."@ + decimal_padded(h % 100, 2) + unit_name(k)
    }
}

/// A number below `2^m` has at most `m` binary digits.
proof fn lemma_bit_len_bound(n: nat, m: nat)
    requires
        n < pow2(m),
    ensures
        bit_len(n) <= m,
    decreases n,
{
    if n > 0 {
        if m == 0 {
            assert(pow2(0) == 1) by {
                lemma2_to64();
            }
        } else {
            lemma_pow2_unfold(m);
            lemma_bit_len_bound(n / 2, (m - 1) as nat);
        }
    }
}

/// `n` rounded as a double, exactly.
fn f64_exact(size: u64) -> (v: u128)
    ensures
        v == f64_value(size as nat),
        v <= 0x1_0000_0000_0000_0000 + 2048,
{
    let n = size as u128;
    let mut t = n;
    let mut bl: u64 = 0;
    proof {
        lemma2_to64();
        lemma2_to64_rest();
        lemma_bit_len_bound(size as nat, 64);
    }
    while t > 0
        invariant
            bit_len(n as nat) == bl + bit_len(t as nat),
            bit_len(n as nat) <= 64,
            t <= n,
        decreases t,
    {
        t = t / 2;
        bl = bl + 1;
    }
    if bl <= 53 {
        return n;
    }
    let e = bl - 53;
    let mut step: u128 = 1;
    let mut j: u64 = 0;
    proof {
        lemma2_to64();
    }
    while j < e
        invariant
            e <= 11,
            j <= e,
            step == pow2(j as nat),
        decreases e - j,
    {
        proof {
            lemma_pow2_unfold((j + 1) as nat);
            lemma2_to64();
        }
        step = step * 2;
        j = j + 1;
    }
    proof {
        lemma_pow2_pos(e as nat);
    }
    let q = n / step;
    let rem = n % step;
    let q2 = if rem * 2 > step || (rem * 2 == step && q % 2 == 1) {
        q + 1
    } else {
        q
    };
    proof {
        assert(q * step + rem == n) by (nonlinear_arith)
            requires
                q == n / step,
                rem == n % step,
                step > 0,
        ;
        assert(q2 * step <= n + step) by (nonlinear_arith)
            requires
                q2 <= q + 1,
                q * step + rem == n,
                rem >= 0,
                step > 0,
        ;
        assert(step <= 2048) by {
            lemma2_to64();
            lemma_pow_mono(e as nat, 11);
        }
    }
    q2 * step
}

/// Powers of two grow with the exponent.
proof fn lemma_pow_mono(a: nat, b: nat)
    requires
        a <= b,
    ensures
        pow2(a) <= pow2(b),
    decreases b - a,
{
    if a < b {
        lemma_pow_mono(a, (b - 1) as nat);
        lemma_pow2_unfold(b);
        lemma_pow2_pos((b - 1) as nat);
    }
}

/// Formats a byte count for display, e.g. `1.50KB` or `3.00MB`.
pub fn format_file_size(size_bytes: u64) -> (r: String)
    ensures
        r@ == file_size_text(size_bytes as nat),
{
    if size_bytes == 0 {
        return String::from_str("0B");
    }
    let v = f64_exact(size_bytes);
    proof {
        lemma2_to64();
        lemma2_to64_rest();
    }
    let (k, d): (u64, u128) = if v >= 0x100_0000_0000 {
        (4, 0x100_0000_0000)
    } else if v >= 0x4000_0000 {
        (3, 0x4000_0000)
    } else if v >= 0x10_0000 {
        (2, 0x10_0000)
    } else if v >= 0x400 {
        (1, 0x400)
    } else {
        (0, 1)
    };
    proof {
        if k == 4 {
            assert(d == pow2(40));
        } else if k == 3 {
            assert(d == pow2(30));
        } else if k == 2 {
            assert(d == pow2(20));
        } else if k == 1 {
            assert(d == pow2(10));
        } else {
            assert(d == pow2(0));
        }
        assert(d == pow2(10 * k as nat));
        assert(k == size_unit(v as nat));
    }
    let a = v * 100;
    let q = a / d;
    let rem = a % d;
    let h = if rem * 2 > d || (rem * 2 == d && q % 2 == 1) {
        q + 1
    } else {
        q
    };
    proof {
        assert(q <= a / 1) by (nonlinear_arith)
            requires
                q == a / d,
                d >= 1,
        ;
        if k == 4 {
            assert(q <= 100 * 0x100_0000 + 100) by (nonlinear_arith)
                requires
                    q == a / d,
                    d == 0x100_0000_0000,
                    a == v * 100,
                    v <= 0x1_0000_0000_0000_0000 + 2048,
            ;
        } else {
            assert(v < d * 1024);
            assert(q < 102400) by (nonlinear_arith)
                requires
                    q == a / d,
                    a == v * 100,
                    v < d * 1024,
                    d >= 1,
            ;
        }
    }
    assert(h == round_div(v as nat * 100, pow2(10 * k as nat)));
    let h64 = h as u64;
    let mut out = String::new();
    push_decimal(&mut out, h64 / 100);
    push_str(&mut out, ".");
    push_decimal_padded(&mut out, h64 % 100, 2);
    if k == 0 {
        push_str(&mut out, "B");
    } else if k == 1 {
        push_str(&mut out, "KB");
    } else if k == 2 {
        push_str(&mut out, "MB");
    } else if k == 3 {
        push_str(&mut out, "GB");
    } else {
        push_str(&mut out, "TB");
    }
    out
}

} // verus!
