//! Sidecar manifest of a ranged download: which closed byte ranges of the
//! `.part` file have already been written.
//!
//! The filled ranges are kept in canonical form: sorted by start, each
//! `start <= end`, and any two ranges separated by at least one missing byte
//! (overlapping or adjacent ranges are merged on insertion).

use vstd::prelude::*;
use vstd::set_lib::{lemma_int_range, lemma_set_disjoint_lens, set_int_range};

verus! {

/// Schema version written into every manifest.
pub const SCHEMA_VERSION: u8 = 1;

/// The set of byte offsets in the closed range `[lo, hi]`.
pub open spec fn range_set(lo: int, hi: int) -> Set<int> {
    Set::new(|x: int| lo <= x <= hi)
}

/// The byte offsets covered by a list of closed ranges.
pub open spec fn coverage(c: Seq<(u64, u64)>) -> Set<int>
    decreases c.len(),
{
    if c.len() == 0 {
        Set::empty()
    } else {
        coverage(c.drop_last()).union(range_set(c.last().0 as int, c.last().1 as int))
    }
}

/// The closed range `iv` contains all of `[start, end]`.
pub open spec fn in_range_pair(iv: (u64, u64), start: u64, end: u64) -> bool {
    iv.0 <= start && end <= iv.1
}

/// `x` lies in the closed range `iv`.
pub open spec fn in_range(iv: (u64, u64), x: int) -> bool {
    iv.0 <= x <= iv.1
}

/// Canonical form: every range is well ordered, ranges are sorted and any two
/// of them are separated by at least one byte that neither covers.
pub open spec fn canonical(c: Seq<(u64, u64)>) -> bool {
    &&& forall|i: int| 0 <= i < c.len() ==> #[trigger] c[i].0 <= c[i].1
    &&& forall|i: int, j: int| 0 <= i < j < c.len() ==> #[trigger] c[i].1 + 1 < #[trigger] c[j].0
}

/// Sum of the lengths of the ranges.
pub open spec fn total_len(c: Seq<(u64, u64)>) -> int
    decreases c.len(),
{
    if c.len() == 0 {
        0
    } else {
        total_len(c.drop_last()) + (c.last().1 - c.last().0 + 1)
    }
}

/// Membership in the coverage is membership in one of the ranges.
pub proof fn lemma_coverage_contains(c: Seq<(u64, u64)>, x: int)
    ensures
        coverage(c).contains(x) <==> exists|k: int| 0 <= k < c.len() && #[trigger] in_range(c[k], x),
    decreases c.len(),
{
    if c.len() > 0 {
        let d = c.drop_last();
        lemma_coverage_contains(d, x);
        if coverage(c).contains(x) {
            if coverage(d).contains(x) {
                let k = choose|k: int| 0 <= k < d.len() && #[trigger] in_range(d[k], x);
                assert(c[k] == d[k]);
            } else {
                assert(in_range(c[c.len() - 1], x));
            }
        }
        if exists|k: int| 0 <= k < c.len() && #[trigger] in_range(c[k], x) {
            let k = choose|k: int| 0 <= k < c.len() && #[trigger] in_range(c[k], x);
            if k < c.len() - 1 {
                assert(d[k] == c[k]);
                assert(in_range(d[k], x));
            }
        }
    }
}

/// Pushing a range that starts beyond the last range (with a gap) keeps the
/// canonical form.
proof fn lemma_push_canonical(s: Seq<(u64, u64)>, iv: (u64, u64))
    requires
        canonical(s),
        iv.0 <= iv.1,
        s.len() > 0 ==> s.last().1 + 1 < iv.0,
    ensures
        canonical(s.push(iv)),
{
    let t = s.push(iv);
    assert forall|i: int, j: int| 0 <= i < j < t.len() implies #[trigger] t[i].1 + 1 < #[trigger] t[j].0 by {
        if j == t.len() - 1 {
            if i < s.len() - 1 {
                assert(s[i].1 + 1 < s[s.len() - 1].0);
            }
        } else {
            assert(t[i] == s[i] && t[j] == s[j]);
        }
    }
    assert forall|i: int| 0 <= i < t.len() implies #[trigger] t[i].0 <= t[i].1 by {
        if i < s.len() {
            assert(t[i] == s[i]);
        }
    }
}

/// A prefix of a canonical list is canonical.
proof fn lemma_canonical_prefix(c: Seq<(u64, u64)>, i: int)
    requires
        canonical(c),
        0 <= i <= c.len(),
    ensures
        canonical(c.subrange(0, i)),
{
    let d = c.subrange(0, i);
    assert forall|a: int, b: int| 0 <= a < b < d.len() implies #[trigger] d[a].1 + 1 < #[trigger] d[b].0 by {
        assert(d[a] == c[a] && d[b] == c[b]);
    }
    assert forall|a: int| 0 <= a < d.len() implies #[trigger] d[a].0 <= d[a].1 by {
        assert(d[a] == c[a]);
    }
}

/// The total length of a prefix never exceeds the total length.
proof fn lemma_total_len_prefix(c: Seq<(u64, u64)>, i: int)
    requires
        canonical(c),
        0 <= i <= c.len(),
    ensures
        0 <= total_len(c.subrange(0, i)) <= total_len(c),
    decreases c.len() - i,
{
    lemma_canonical_prefix(c, i);
    lemma_total_len_nonneg(c.subrange(0, i));
    if i < c.len() {
        lemma_total_len_prefix(c, i + 1);
        let p = c.subrange(0, i + 1);
        assert(p.drop_last() =~= c.subrange(0, i));
        assert(p.last() == c[i]);
        assert(c[i].0 <= c[i].1);
    } else {
        assert(c.subrange(0, i) =~= c);
        lemma_total_len_nonneg(c);
    }
}

/// The total length of a canonical list is non-negative.
proof fn lemma_total_len_nonneg(c: Seq<(u64, u64)>)
    requires
        canonical(c),
    ensures
        total_len(c) >= 0,
    decreases c.len(),
{
    if c.len() > 0 {
        lemma_canonical_prefix(c, c.len() - 1);
        assert(c.drop_last() =~= c.subrange(0, c.len() - 1));
        lemma_total_len_nonneg(c.drop_last());
        assert(c[c.len() - 1].0 <= c[c.len() - 1].1);
    }
}

/// In a canonical list, no recorded range covers a byte below the first start.
proof fn lemma_starts_sorted(c: Seq<(u64, u64)>, i: int, j: int)
    requires
        canonical(c),
        0 <= i <= j < c.len(),
    ensures
        c[i].0 <= c[j].0,
        c[i].1 <= c[j].1,
{
    if i < j {
        assert(c[i].1 + 1 < c[j].0);
        assert(c[i].0 <= c[i].1);
        assert(c[j].0 <= c[j].1);
    }
}

/// Facts about the first range start beyond `p`.
proof fn lemma_next_start_after(c: Seq<(u64, u64)>, p: int)
    requires
        canonical(c),
    ensures
        match next_start_after(c, p) {
            Some(s) => s > p && (exists|k: int| 0 <= k < c.len() && #[trigger] c[k].0 == s) && (
            forall|k: int| 0 <= k < c.len() && #[trigger] c[k].0 > p ==> c[k].0 >= s),
            None => forall|k: int| 0 <= k < c.len() ==> #[trigger] c[k].0 <= p,
        },
    decreases c.len(),
{
    if c.len() > 0 {
        let d = c.drop_first();
        assert forall|a: int, b: int| 0 <= a < b < d.len() implies #[trigger] d[a].1 + 1 < #[trigger] d[b].0 by {
            assert(d[a] == c[a + 1] && d[b] == c[b + 1]);
        }
        assert forall|a: int| 0 <= a < d.len() implies #[trigger] d[a].0 <= d[a].1 by {
            assert(d[a] == c[a + 1]);
        }
        lemma_next_start_after(d, p);
        if c[0].0 > p {
            assert(c[0].0 == c[0].0);
            assert forall|k: int| 0 <= k < c.len() && #[trigger] c[k].0 > p implies c[k].0 >= c[0].0 by {
                lemma_starts_sorted(c, 0, k);
            }
        } else {
            match next_start_after(d, p) {
                Some(s) => {
                    let k0 = choose|k: int| 0 <= k < d.len() && #[trigger] d[k].0 == s;
                    assert(c[k0 + 1].0 == s);
                    assert forall|k: int| 0 <= k < c.len() && #[trigger] c[k].0 > p implies c[k].0 >= s by {
                        if k > 0 {
                            assert(d[k - 1] == c[k]);
                        }
                    }
                },
                None => {
                    assert forall|k: int| 0 <= k < c.len() implies #[trigger] c[k].0 <= p by {
                        if k > 0 {
                            assert(d[k - 1] == c[k]);
                        }
                    }
                },
            }
        }
    }
}

/// The number of covered bytes equals the sum of the range lengths: canonical
/// ranges never count a byte twice.
pub proof fn lemma_coverage_len(c: Seq<(u64, u64)>)
    requires
        canonical(c),
    ensures
        coverage(c).finite(),
        coverage(c).len() == total_len(c),
    decreases c.len(),
{
    if c.len() > 0 {
        let d = c.drop_last();
        let last = c.last();
        lemma_canonical_prefix(c, c.len() - 1);
        assert(d =~= c.subrange(0, c.len() - 1));
        lemma_coverage_len(d);
        assert(last.0 <= last.1);
        lemma_int_range(last.0 as int, last.1 + 1);
        let r = range_set(last.0 as int, last.1 as int);
        assert(r =~= set_int_range(last.0 as int, last.1 + 1));
        assert forall|x: int| coverage(d).contains(x) implies !r.contains(x) by {
            lemma_coverage_contains(d, x);
            let k = choose|k: int| 0 <= k < d.len() && #[trigger] in_range(d[k], x);
            assert(d[k] == c[k]);
            assert(c[k].1 + 1 < c[c.len() - 1].0);
        }
        assert(coverage(d).disjoint(r));
        lemma_set_disjoint_lens(coverage(d), r);
        assert(coverage(d).union(r) == coverage(d) + r);
    }
}

/// One merge step of `record_chunk`: folding range `c[i]` into `[lo0, hi0]`.
proof fn lemma_merge_step(
    c: Seq<(u64, u64)>,
    out: Seq<(u64, u64)>,
    i: int,
    i1: int,
    start: u64,
    end: u64,
    lo0: u64,
    hi0: u64,
    lo: u64,
    hi: u64,
)
    requires
        canonical(c),
        0 <= i1 <= i < c.len(),
        lo0 <= start,
        end <= hi0,
        start <= end,
        i1 > 0 ==> c[i1 - 1].1 + 1 < lo0,
        forall|k: int| i <= k < c.len() ==> #[trigger] c[k].1 + 1 >= lo0,
        c[i].0 <= hi0 + 1,
        lo == if c[i].0 < lo0 { c[i].0 } else { lo0 },
        hi == if c[i].1 > hi0 { c[i].1 } else { hi0 },
        coverage(c.subrange(0, i)).union(range_set(start as int, end as int)) == coverage(out).union(
            range_set(lo0 as int, hi0 as int),
        ),
    ensures
        i1 > 0 ==> c[i1 - 1].1 + 1 < lo,
        forall|k: int| i + 1 <= k < c.len() ==> #[trigger] c[k].1 + 1 >= lo,
        coverage(c.subrange(0, i + 1)).union(range_set(start as int, end as int)) == coverage(
            out,
        ).union(range_set(lo as int, hi as int)),
{
    let a = c[i].0;
    let b = c[i].1;
    assert(a <= b);
    assert(b + 1 >= lo0);
    assert(range_set(lo0 as int, hi0 as int).union(range_set(a as int, b as int)) =~= range_set(
        lo as int,
        hi as int,
    ));
    let p = c.subrange(0, i + 1);
    assert(p.drop_last() =~= c.subrange(0, i));
    assert(p.last() == c[i]);
    assert(coverage(p) == coverage(c.subrange(0, i)).union(range_set(a as int, b as int)));
    if i1 > 0 {
        assert(c[i1 - 1].1 + 1 < c[i].0);
    }
    assert forall|k: int| i + 1 <= k < c.len() implies #[trigger] c[k].1 + 1 >= lo by {
        assert(c[i].1 + 1 < c[k].0);
        assert(c[k].0 <= c[k].1);
    }
    let cov_i = coverage(c.subrange(0, i));
    let se = range_set(start as int, end as int);
    assert forall|x: int|
        coverage(p).union(se).contains(x) <==> coverage(out).union(
            range_set(lo as int, hi as int),
        ).contains(x) by {
        assert(cov_i.union(se).contains(x) == coverage(out).union(
            range_set(lo0 as int, hi0 as int),
        ).contains(x));
        assert(range_set(lo0 as int, hi0 as int).union(range_set(a as int, b as int)).contains(x)
            == range_set(lo as int, hi as int).contains(x));
    }
    assert(coverage(p).union(se) =~= coverage(out).union(range_set(lo as int, hi as int)));
}

/// Facts about the first range of a canonical list: its start is the least
/// covered byte, all of it is covered, and the byte after it is missing.
proof fn lemma_first_range(c: Seq<(u64, u64)>, x: int)
    requires
        canonical(c),
        c.len() > 0,
    ensures
        coverage(c).contains(c[0].0 as int),
        coverage(c).contains(x) ==> c[0].0 <= x,
        c[0].0 <= x <= c[0].1 ==> coverage(c).contains(x),
        !coverage(c).contains(c[0].1 + 1),
{
    let y = c[0].1 + 1;
    lemma_coverage_contains(c, c[0].0 as int);
    assert(in_range(c[0], c[0].0 as int));
    lemma_coverage_contains(c, x);
    if coverage(c).contains(x) {
        let k = choose|k: int| 0 <= k < c.len() && #[trigger] in_range(c[k], x);
        lemma_starts_sorted(c, 0, k);
    }
    if c[0].0 <= x <= c[0].1 {
        assert(in_range(c[0], x));
    }
    lemma_coverage_contains(c, y);
    if coverage(c).contains(y) {
        let k = choose|k: int| 0 <= k < c.len() && #[trigger] in_range(c[k], y);
        if k > 0 {
            assert(c[0].1 + 1 < c[k].0);
        }
    }
}

/// Dropping the first range of a canonical list keeps it canonical and leaves
/// exactly the covered bytes beyond that range.
proof fn lemma_drop_first_range(c: Seq<(u64, u64)>)
    requires
        canonical(c),
        c.len() > 0,
    ensures
        canonical(c.drop_first()),
        forall|x: int| #[trigger]
            coverage(c.drop_first()).contains(x) <==> (coverage(c).contains(x) && x > c[0].1),
{
    let d = c.drop_first();
    assert forall|a: int, b: int| 0 <= a < b < d.len() implies #[trigger] d[a].1 + 1
        < #[trigger] d[b].0 by {
        assert(d[a] == c[a + 1] && d[b] == c[b + 1]);
    }
    assert forall|a: int| 0 <= a < d.len() implies #[trigger] d[a].0 <= d[a].1 by {
        assert(d[a] == c[a + 1]);
    }
    assert forall|x: int|
        #[trigger] coverage(d).contains(x) <==> (coverage(c).contains(x) && x > c[0].1) by {
        lemma_coverage_contains(d, x);
        lemma_coverage_contains(c, x);
        if coverage(d).contains(x) {
            let k = choose|k: int| 0 <= k < d.len() && #[trigger] in_range(d[k], x);
            assert(d[k] == c[k + 1]);
            assert(in_range(c[k + 1], x));
            assert(c[0].1 + 1 < c[k + 1].0);
        }
        if coverage(c).contains(x) && x > c[0].1 {
            let k = choose|k: int| 0 <= k < c.len() && #[trigger] in_range(c[k], x);
            assert(k != 0);
            assert(d[k - 1] == c[k]);
            assert(in_range(d[k - 1], x));
        }
    }
}

/// Canonical form is unique: two canonical lists that cover the same bytes are
/// the same list.
pub proof fn lemma_canonical_unique(a: Seq<(u64, u64)>, b: Seq<(u64, u64)>)
    requires
        canonical(a),
        canonical(b),
        coverage(a) == coverage(b),
    ensures
        a == b,
    decreases a.len(),
{
    if a.len() == 0 || b.len() == 0 {
        if b.len() > 0 {
            lemma_first_range(b, 0);
        }
        if a.len() > 0 {
            lemma_first_range(a, 0);
        }
        assert(a =~= b);
    } else {
        lemma_first_range(a, b[0].0 as int);
        lemma_first_range(b, a[0].0 as int);
        assert(a[0].0 == b[0].0);
        if a[0].1 < b[0].1 {
            lemma_first_range(b, a[0].1 + 1);
        }
        if b[0].1 < a[0].1 {
            lemma_first_range(a, b[0].1 + 1);
        }
        assert(a[0] == b[0]);
        lemma_drop_first_range(a);
        lemma_drop_first_range(b);
        assert(coverage(a.drop_first()) =~= coverage(b.drop_first()));
        lemma_canonical_unique(a.drop_first(), b.drop_first());
        assert forall|i: int| 0 <= i < a.len() implies a[i] == b[i] by {
            if i > 0 {
                assert(a[i] == a.drop_first()[i - 1]);
                assert(b[i] == b.drop_first()[i - 1]);
            }
        }
        assert(a =~= b);
    }
}

/// Whether a list of closed ranges is in canonical form.
pub fn is_canonical(c: &Vec<(u64, u64)>) -> (r: bool)
    ensures
        r == canonical(c@),
{
    let n = c.len();
    let mut i: usize = 0;
    while i < n
        invariant
            n == c@.len(),
            i <= n,
            canonical(c@.subrange(0, i as int)),
        decreases n - i,
    {
        let (s, e) = c[i];
        if s > e {
            return false;
        }
        if i > 0 {
            let prev_end = c[i - 1].1;
            if prev_end >= s || s - prev_end < 2 {
                proof {
                    assert(!(c@[i - 1].1 + 1 < c@[i as int].0));
                }
                return false;
            }
        }
        proof {
            let p = c@.subrange(0, i as int);
            if i > 0 {
                assert(p[i - 1] == c@[i - 1]);
            }
            lemma_push_canonical(p, c@[i as int]);
            assert(p.push(c@[i as int]) =~= c@.subrange(0, i + 1));
        }
        i += 1;
    }
    proof {
        assert(c@.subrange(0, n as int) =~= c@);
    }
    true
}

/// Ranged-resume metadata stored next to the `.part` file.
#[derive(Clone, Debug, PartialEq, Eq)]
pub struct PartManifest {
    /// Schema version, for evolution (currently 1).
    schema_version: u8,
    /// Song id (path sanity and logging).
    pub song_id: i64,
    /// Effective quality the bytes were fetched at.
    pub quality: String,
    /// Full file length in bytes.
    pub content_length: u64,
    /// Chunk size of the ranged split.
    pub chunk_size: u64,
    /// Filled closed ranges, in canonical form.
    completed: Vec<(u64, u64)>,
}

/// Mathematical model of a [`PartManifest`].
pub struct ManifestView {
    pub schema_version: u8,
    pub song_id: i64,
    pub quality: Seq<char>,
    pub content_length: u64,
    pub chunk_size: u64,
    /// Filled closed ranges.
    pub ranges: Seq<(u64, u64)>,
}

impl View for PartManifest {
    type V = ManifestView;

    closed spec fn view(&self) -> ManifestView {
        ManifestView {
            schema_version: self.schema_version,
            song_id: self.song_id,
            quality: self.quality@,
            content_length: self.content_length,
            chunk_size: self.chunk_size,
            ranges: self.completed@,
        }
    }
}

impl ManifestView {
    /// The filled ranges are in canonical form.
    pub open spec fn wf(self) -> bool {
        canonical(self.ranges)
    }

    /// Byte offsets that have been recorded as written.
    pub open spec fn covered(self) -> Set<int> {
        coverage(self.ranges)
    }

    /// Length of the leading run of filled bytes as stored (saturating, not capped).
    pub open spec fn raw_prefix(self) -> int {
        if self.ranges.len() > 0 && self.ranges[0].0 == 0 {
            if self.ranges[0].1 == u64::MAX {
                u64::MAX as int
            } else {
                self.ranges[0].1 + 1
            }
        } else {
            0
        }
    }

    /// Resume start: the leading filled run, capped at `content_length`.
    pub open spec fn contiguous_prefix(self) -> int {
        if self.raw_prefix() < self.content_length {
            self.raw_prefix()
        } else {
            self.content_length as int
        }
    }

    /// Every byte of `[0, content_length)` is filled.
    pub open spec fn is_complete(self) -> bool {
        forall|x: int| 0 <= x < self.content_length ==> #[trigger] self.covered().contains(x)
    }

    /// Total recorded bytes, capped at `content_length`.
    pub open spec fn completed_bytes(self) -> int {
        let t = total_len(self.ranges);
        if t < self.content_length {
            t
        } else {
            self.content_length as int
        }
    }

    /// Some recorded range contains all of `[start, end]`.
    pub open spec fn range_recorded(self, start: u64, end: u64) -> bool {
        exists|i: int| 0 <= i < self.ranges.len() && #[trigger] in_range_pair(self.ranges[i], start, end)
    }

    /// The next missing closed range.
    pub open spec fn next_missing_range(self) -> Option<(u64, u64)> {
        if self.is_complete() {
            None
        } else {
            let p = self.contiguous_prefix();
            let bound: int = match next_start_after(self.ranges, p) {
                Some(s) => s as int,
                None => self.content_length as int,
            };
            let e: int = if bound == 0 {
                0
            } else {
                bound - 1
            };
            Some((p as u64, e as u64))
        }
    }
}

/// `n` is a manifest rebuilt from stored fields: well formed, with those
/// fields, covering exactly the stored ranges.
pub open spec fn rebuilt_from(
    schema_version: u8,
    song_id: i64,
    quality: Seq<char>,
    content_length: u64,
    chunk_size: u64,
    ranges: Seq<(u64, u64)>,
    n: ManifestView,
) -> bool {
    &&& n.wf()
    &&& n.schema_version == schema_version
    &&& n.song_id == song_id
    &&& n.quality == quality
    &&& n.content_length == content_length
    &&& n.chunk_size == chunk_size
    &&& n.covered() == coverage(ranges)
}

/// Storing a manifest's fields and rebuilding from them gives the same
/// manifest back, with the same resume point and the same missing ranges.
pub proof fn lemma_rebuild_round_trip(m: ManifestView, n: ManifestView)
    requires
        m.wf(),
        rebuilt_from(m.schema_version, m.song_id, m.quality, m.content_length, m.chunk_size, m.ranges, n),
    ensures
        n == m,
{
    lemma_canonical_unique(n.ranges, m.ranges);
}

/// `x` is a result of recording the closed range `[start, end]` into `m`:
/// well formed, covering the old bytes and the new range, every other field
/// unchanged.
pub open spec fn records(m: ManifestView, start: u64, end: u64, x: ManifestView) -> bool {
    &&& x.wf()
    &&& x.covered() == m.covered().union(range_set(start as int, end as int))
    &&& x.schema_version == m.schema_version
    &&& x.song_id == m.song_id
    &&& x.quality == m.quality
    &&& x.content_length == m.content_length
    &&& x.chunk_size == m.chunk_size
}

/// Two results of recording that cover the same bytes are the same manifest.
proof fn lemma_records_equal(a: ManifestView, b: ManifestView)
    requires
        a.wf(),
        b.wf(),
        a.covered() == b.covered(),
        a.schema_version == b.schema_version,
        a.song_id == b.song_id,
        a.quality == b.quality,
        a.content_length == b.content_length,
        a.chunk_size == b.chunk_size,
    ensures
        a == b,
{
    lemma_canonical_unique(a.ranges, b.ranges);
}

/// Recording is deterministic: the same range recorded into the same
/// manifest always gives the same manifest.
pub proof fn lemma_record_deterministic(m: ManifestView, start: u64, end: u64, x: ManifestView, y: ManifestView)
    requires
        records(m, start, end, x),
        records(m, start, end, y),
    ensures
        x == y,
{
    lemma_records_equal(x, y);
}

/// Recording two ranges in either order gives the same manifest.
pub proof fn lemma_record_commutes(
    m: ManifestView,
    s1: u64,
    e1: u64,
    s2: u64,
    e2: u64,
    x1: ManifestView,
    x2: ManifestView,
    y1: ManifestView,
    y2: ManifestView,
)
    requires
        records(m, s1, e1, x1),
        records(x1, s2, e2, x2),
        records(m, s2, e2, y1),
        records(y1, s1, e1, y2),
    ensures
        x2 == y2,
{
    assert(x2.covered() =~= y2.covered());
    lemma_records_equal(x2, y2);
}

/// Recording a range a second time changes nothing.
pub proof fn lemma_record_idempotent(m: ManifestView, start: u64, end: u64, x: ManifestView, z: ManifestView)
    requires
        records(m, start, end, x),
        records(x, start, end, z),
    ensures
        z == x,
{
    assert(z.covered() =~= x.covered());
    lemma_records_equal(z, x);
}

/// The stored form of a manifest depends only on which bytes were recorded:
/// two well-formed manifests that cover the same bytes hold the same ranges,
/// whatever order or overlap the chunks were recorded in.
pub proof fn lemma_same_coverage_same_ranges(m1: ManifestView, m2: ManifestView)
    requires
        m1.wf(),
        m2.wf(),
        m1.covered() == m2.covered(),
    ensures
        m1.ranges == m2.ranges,
{
    lemma_canonical_unique(m1.ranges, m2.ranges);
}

/// Start of the first range that begins after `p`, if any.
pub open spec fn next_start_after(c: Seq<(u64, u64)>, p: int) -> Option<u64>
    decreases c.len(),
{
    if c.len() == 0 {
        None
    } else if c[0].0 > p {
        Some(c[0].0)
    } else {
        next_start_after(c.drop_first(), p)
    }
}

impl PartManifest {
    /// Creates an empty manifest (no range filled yet).
    pub fn new(song_id: i64, quality: String, content_length: u64, chunk_size: u64) -> (m: Self)
        ensures
            m@.wf(),
            m@.ranges == Seq::<(u64, u64)>::empty(),
            m@.schema_version == SCHEMA_VERSION,
            m@.song_id == song_id,
            m@.quality == quality@,
            m@.content_length == content_length,
            m@.chunk_size == chunk_size,
    {
        PartManifest {
            schema_version: SCHEMA_VERSION,
            song_id,
            quality,
            content_length,
            chunk_size,
            completed: Vec::new(),
        }
    }

    /// Rebuilds a manifest from stored fields. A stored manifest is accepted
    /// whenever it has the current schema version; its filled ranges are kept
    /// as stored when already canonical, and otherwise sorted and merged (an
    /// inverted range covers nothing and is dropped), so that the manifest
    /// covers exactly the stored bytes.
    pub fn from_parts(
        schema_version: u8,
        song_id: i64,
        quality: String,
        content_length: u64,
        chunk_size: u64,
        completed: Vec<(u64, u64)>,
    ) -> (r: Option<Self>)
        ensures
            r is Some <==> schema_version == SCHEMA_VERSION,
            r matches Some(m) ==> rebuilt_from(
                schema_version,
                song_id,
                quality@,
                content_length,
                chunk_size,
                completed@,
                m@,
            ),
            r matches Some(m) ==> (canonical(completed@) ==> m@.ranges == completed@),
    {
        if schema_version != SCHEMA_VERSION {
            return None;
        }
        if is_canonical(&completed) {
            return Some(
                PartManifest { schema_version, song_id, quality, content_length, chunk_size, completed },
            );
        }
        let ghost q = quality@;
        let mut m = PartManifest::new(song_id, quality, content_length, chunk_size);
        proof {
            assert(coverage(completed@.subrange(0, 0)) =~= Set::<int>::empty());
            assert(m@.covered() =~= Set::<int>::empty());
        }
        let mut i: usize = 0;
        while i < completed.len()
            invariant
                i <= completed.len(),
                m@.wf(),
                m@.covered() == coverage(completed@.subrange(0, i as int)),
                m@.schema_version == SCHEMA_VERSION,
                m@.song_id == song_id,
                m@.quality == q,
                m@.content_length == content_length,
                m@.chunk_size == chunk_size,
            decreases completed.len() - i,
        {
            let (s, e) = completed[i];
            let ghost before = m@.covered();
            proof {
                assert(completed@.subrange(0, i as int + 1).drop_last() =~= completed@.subrange(
                    0,
                    i as int,
                ));
                assert(completed@.subrange(0, i as int + 1).last() == (s, e));
            }
            if s <= e {
                m.record_chunk(s, e);
            } else {
                proof {
                    assert(range_set(s as int, e as int) =~= Set::<int>::empty());
                    assert(before.union(range_set(s as int, e as int)) =~= before);
                }
            }
            i += 1;
        }
        proof {
            assert(completed@.subrange(0, completed@.len() as int) =~= completed@);
        }
        Some(m)
    }

    /// Song id of the download.
    pub fn song_id(&self) -> (r: i64)
        ensures
            r == self@.song_id,
    {
        self.song_id
    }

    /// Quality the bytes were fetched at.
    pub fn quality(&self) -> (r: &str)
        ensures
            r@ == self@.quality,
    {
        self.quality.as_str()
    }

    /// Chunk size of the ranged split.
    pub fn chunk_size(&self) -> (r: u64)
        ensures
            r == self@.chunk_size,
    {
        self.chunk_size
    }

    /// Schema version the manifest was written with.
    pub fn schema_version(&self) -> (r: u8)
        ensures
            r == self@.schema_version,
    {
        self.schema_version
    }

    /// The filled closed ranges, in canonical order.
    pub fn completed_ranges(&self) -> (r: Vec<(u64, u64)>)
        ensures
            r@ == self@.ranges,
    {
        let mut out: Vec<(u64, u64)> = Vec::new();
        let mut i: usize = 0;
        while i < self.completed.len()
            invariant
                i <= self.completed.len(),
                out@ == self.completed@.subrange(0, i as int),
            decreases self.completed.len() - i,
        {
            out.push(self.completed[i]);
            i += 1;
            proof {
                assert(out@ =~= self.completed@.subrange(0, i as int));
            }
        }
        proof {
            assert(self.completed@.subrange(0, i as int) =~= self.completed@);
        }
        out
    }

    /// Full file length in bytes.
    pub fn content_length(&self) -> (r: u64)
        ensures
            r == self@.content_length,
    {
        self.content_length
    }

    /// Records the filled closed range `[start, end]`, merging it with every
    /// recorded range that overlaps it or is adjacent to it.
    #[verifier::spinoff_prover]
    pub fn record_chunk(&mut self, start: u64, end: u64)
        requires
            old(self)@.wf(),
            start <= end,
        ensures
            final(self)@.wf(),
            final(self)@.covered() == old(self)@.covered().union(range_set(start as int, end as int)),
            records(old(self)@, start, end, final(self)@),
            final(self)@.schema_version == old(self)@.schema_version,
            final(self)@.song_id == old(self)@.song_id,
            final(self)@.quality == old(self)@.quality,
            final(self)@.content_length == old(self)@.content_length,
            final(self)@.chunk_size == old(self)@.chunk_size,
    {
        let ghost c = self.completed@;
        let n = self.completed.len();
        let mut out: Vec<(u64, u64)> = Vec::new();
        let mut i: usize = 0;
        // Ranges that end more than one byte before `start` stay as they are.
        while i < n && self.completed[i].1 < start && start - self.completed[i].1 > 1
            invariant
                n == c.len(),
                c == self.completed@,
                canonical(c),
                0 <= i <= n,
                out@ == c.subrange(0, i as int),
                canonical(out@),
                forall|k: int| 0 <= k < i ==> #[trigger] c[k].1 + 1 < start,
            decreases n - i,
        {
            proof {
                lemma_push_canonical(out@, c[i as int]);
            }
            out.push(self.completed[i]);
            i += 1;
            proof {
                assert(out@ =~= c.subrange(0, i as int));
            }
        }
        let ghost i1 = i;
        proof {
            assert forall|k: int| i <= k < n implies #[trigger] c[k].1 + 1 >= start by {
                if k > i {
                    assert(c[i as int].1 + 1 < c[k].0);
                    assert(c[i as int].0 <= c[i as int].1);
                }
            }
            assert(coverage(c.subrange(0, i as int)) == coverage(out@));
        }
        let mut lo = start;
        let mut hi = end;
        // Ranges that overlap or touch the growing range `[lo, hi]` are merged in.
        while i < n && (self.completed[i].0 <= hi || self.completed[i].0 - hi == 1)
            invariant
                n == c.len(),
                c == self.completed@,
                canonical(c),
                i1 <= i <= n,
                out@ == c.subrange(0, i1 as int),
                canonical(out@),
                lo <= start,
                start <= end,
                end <= hi,
                i1 > 0 ==> c[i1 as int - 1].1 + 1 < lo,
                forall|k: int| i <= k < n ==> #[trigger] c[k].1 + 1 >= lo,
                coverage(c.subrange(0, i as int)).union(range_set(start as int, end as int))
                    == coverage(out@).union(range_set(lo as int, hi as int)),
            decreases n - i,
        {
            let (a, b) = self.completed[i];
            let ghost lo0 = lo;
            let ghost hi0 = hi;
            if a < lo {
                lo = a;
            }
            if b > hi {
                hi = b;
            }
            proof {
                lemma_merge_step(c, out@, i as int, i1 as int, start, end, lo0, hi0, lo, hi);
            }
            i += 1;
        }
        proof {
            if i1 > 0 {
                assert(out@.last() == c[i1 as int - 1]);
            }
            lemma_push_canonical(out@, (lo, hi));
            assert(out@.push((lo, hi)).drop_last() =~= out@);
        }
        out.push((lo, hi));
        proof {
            assert(coverage(out@) == coverage(c.subrange(0, i as int)).union(
                range_set(start as int, end as int),
            ));
        }
        // The remaining ranges start more than one byte after `hi`.
        while i < n
            invariant
                n == c.len(),
                c == self.completed@,
                canonical(c),
                0 <= i <= n,
                out@.len() > 0,
                canonical(out@),
                i < n ==> out@.last().1 + 1 < c[i as int].0,
                coverage(out@) == coverage(c.subrange(0, i as int)).union(
                    range_set(start as int, end as int),
                ),
            decreases n - i,
        {
            proof {
                assert(c[i as int].0 <= c[i as int].1);
                lemma_push_canonical(out@, c[i as int]);
                assert(out@.push(c[i as int]).drop_last() =~= out@);
                let p = c.subrange(0, i as int + 1);
                assert(p.drop_last() =~= c.subrange(0, i as int));
                assert(coverage(out@.push(c[i as int])) =~= coverage(p).union(
                    range_set(start as int, end as int),
                ));
            }
            out.push(self.completed[i]);
            i += 1;
            proof {
                if i < n {
                    assert(c[i - 1].1 + 1 < c[i as int].0);
                }
            }
        }
        proof {
            assert(c.subrange(0, n as int) =~= c);
        }
        self.completed = out;
    }

    /// Total number of recorded bytes (discontiguous ranges included), capped
    /// at `content_length`: the progress figure.
    pub fn completed_bytes(&self) -> (r: u64)
        requires
            self@.wf(),
            total_len(self@.ranges) <= u64::MAX,
        ensures
            r == self@.completed_bytes(),
            r == if self@.covered().len() < self@.content_length {
                self@.covered().len() as int
            } else {
                self@.content_length as int
            },
    {
        let ghost c = self.completed@;
        let n = self.completed.len();
        let mut sum: u64 = 0;
        let mut i: usize = 0;
        while i < n
            invariant
                n == c.len(),
                c == self.completed@,
                canonical(c),
                total_len(c) <= u64::MAX,
                0 <= i <= n,
                sum == total_len(c.subrange(0, i as int)),
            decreases n - i,
        {
            let (s, e) = self.completed[i];
            proof {
                assert(c[i as int].0 <= c[i as int].1);
                let p = c.subrange(0, i as int + 1);
                assert(p.drop_last() =~= c.subrange(0, i as int));
                assert(p.last() == c[i as int]);
                lemma_total_len_prefix(c, i as int + 1);
            }
            sum = sum + (e - s + 1);
            i += 1;
        }
        proof {
            assert(c.subrange(0, n as int) =~= c);
            lemma_coverage_len(c);
        }
        if sum < self.content_length {
            sum
        } else {
            self.content_length
        }
    }

    /// Largest `prefix` such that all of `[0, prefix)` is filled, capped at
    /// `content_length`: where a resumed download starts.
    pub fn contiguous_prefix(&self) -> (r: u64)
        requires
            self@.wf(),
        ensures
            r == self@.contiguous_prefix(),
            r <= self@.content_length,
            forall|x: int| 0 <= x < r ==> #[trigger] self@.covered().contains(x),
            r < self@.content_length ==> !self@.covered().contains(r as int),
    {
        let ghost c = self.completed@;
        let r = if self.completed.len() > 0 && self.completed[0].0 == 0 {
            let end = self.completed[0].1;
            let p = if end == u64::MAX {
                u64::MAX
            } else {
                end + 1
            };
            if p < self.content_length {
                p
            } else {
                self.content_length
            }
        } else {
            0
        };
        proof {
            assert forall|x: int| 0 <= x < r implies #[trigger] self@.covered().contains(x) by {
                lemma_coverage_contains(c, x);
                assert(in_range(c[0], x));
            }
            if r < self.content_length {
                lemma_coverage_contains(c, r as int);
                if self@.covered().contains(r as int) {
                    let k = choose|k: int| 0 <= k < c.len() && #[trigger] in_range(c[k], r as int);
                    if k > 0 {
                        assert(c[0].1 + 1 < c[k].0);
                        assert(c[0].0 <= c[0].1);
                    }
                }
            }
        }
        r
    }

    /// Whether all of `[0, content_length)` is filled.
    pub fn is_complete(&self) -> (r: bool)
        requires
            self@.wf(),
        ensures
            r == self@.is_complete(),
    {
        let p = self.contiguous_prefix();
        proof {
            if p < self.content_length {
                assert(!self@.covered().contains(p as int));
            }
        }
        p >= self.content_length
    }

    /// Whether some single recorded range contains all of `[start, end]`.
    pub fn is_range_complete(&self, start: u64, end: u64) -> (r: bool)
        requires
            self@.wf(),
        ensures
            r == self@.range_recorded(start, end),
            start <= end ==> (r <==> forall|x: int| start <= x <= end ==> #[trigger] self@.covered().contains(x)),
    {
        let ghost c = self.completed@;
        let n = self.completed.len();
        let mut i: usize = 0;
        while i < n
            invariant
                n == c.len(),
                c == self.completed@,
                canonical(c),
                0 <= i <= n,
                forall|k: int| 0 <= k < i ==> !#[trigger] in_range_pair(c[k], start, end),
            decreases n - i,
        {
            if self.completed[i].0 <= start && end <= self.completed[i].1 {
                proof {
                    assert(self@.ranges == c);
                    assert(in_range_pair(self@.ranges[i as int], start, end));
                    assert forall|x: int| start <= x <= end implies #[trigger] self@.covered().contains(x) by {
                        lemma_coverage_contains(c, x);
                        assert(in_range(c[i as int], x));
                    }
                }
                return true;
            }
            i += 1;
        }
        proof {
            if start <= end {
                if forall|x: int| start <= x <= end ==> #[trigger] self@.covered().contains(x) {
                    lemma_coverage_contains(c, start as int);
                    assert(self@.covered().contains(start as int));
                    let k = choose|k: int| 0 <= k < c.len() && #[trigger] in_range(c[k], start as int);
                    assert(!in_range_pair(c[k], start, end));
                    let y = c[k].1 + 1;
                    assert(self@.covered().contains(y));
                    lemma_coverage_contains(c, y);
                    let j = choose|j: int| 0 <= j < c.len() && #[trigger] in_range(c[j], y);
                    if j < k {
                        lemma_starts_sorted(c, j, k);
                    } else if j > k {
                        assert(c[k].1 + 1 < c[j].0);
                    }
                    assert(false);
                }
            }
        }
        false
    }

    /// The next missing closed range `[gap_start, gap_end]`: it starts at the
    /// resume point and stops before the next recorded range (or at the end of
    /// the file). `None` when the file is complete.
    pub fn next_missing_range(&self) -> (r: Option<(u64, u64)>)
        requires
            self@.wf(),
        ensures
            r == self@.next_missing_range(),
            r is None <==> self@.is_complete(),
            r matches Some((gs, ge)) ==> gs <= ge && gs < self@.content_length
                && forall|x: int| gs <= x <= ge ==> !#[trigger] self@.covered().contains(x),
    {
        if self.is_complete() {
            return None;
        }
        let gap_start = self.contiguous_prefix();
        let ghost c = self.completed@;
        let n = self.completed.len();
        let mut i: usize = 0;
        proof {
            assert(c.subrange(0, n as int) =~= c);
        }
        while i < n && self.completed[i].0 <= gap_start
            invariant
                n == c.len(),
                c == self.completed@,
                0 <= i <= n,
                next_start_after(c, gap_start as int) == next_start_after(c.subrange(i as int, n as int), gap_start as int),
            decreases n - i,
        {
            proof {
                let t = c.subrange(i as int, n as int);
                assert(t.drop_first() =~= c.subrange(i as int + 1, n as int));
            }
            i += 1;
        }
        let bound = if i < n {
            proof {
                let t = c.subrange(i as int, n as int);
                assert(t[0] == c[i as int]);
            }
            self.completed[i].0
        } else {
            proof {
                assert(c.subrange(i as int, n as int).len() == 0);
            }
            self.content_length
        };
        let gap_end = if bound == 0 {
            0
        } else {
            bound - 1
        };
        proof {
            lemma_next_start_after(c, gap_start as int);
            assert forall|x: int| gap_start <= x <= gap_end implies !#[trigger] self@.covered().contains(x) by {
                lemma_coverage_contains(c, x);
                if self@.covered().contains(x) {
                    let k = choose|k: int| 0 <= k < c.len() && #[trigger] in_range(c[k], x);
                    if c[k].0 <= gap_start {
                        lemma_coverage_contains(c, gap_start as int);
                        assert(in_range(c[k], gap_start as int));
                    }
                }
            }
        }
        Some((gap_start, gap_end))
    }
}

} // verus!
