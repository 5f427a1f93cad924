//! Parse and download statistics: all-time totals plus per-month and per-day
//! counters keyed by `YYYY-MM` and `YYYY-MM-DD`.

use vstd::prelude::*;

use crate::text::{decimal_padded, push_decimal_padded, str_eq};

verus! {

/// Counter keys are distinct.
pub open spec fn keys_distinct(v: Seq<(String, i64)>) -> bool {
    forall|i: int, j: int| 0 <= i < j < v.len() ==> (#[trigger] v[i]).0@ != (#[trigger] v[j]).0@
}

/// The counter of `key` (0 when absent).
pub open spec fn count_of(v: Seq<(String, i64)>, key: Seq<char>) -> int {
    if exists|i: int| 0 <= i < v.len() && (#[trigger] v[i]).0@ == key {
        v[choose|i: int| 0 <= i < v.len() && (#[trigger] v[i]).0@ == key].1 as int
    } else {
        0
    }
}

/// With distinct keys, the counter of the key at index `i` is its value.
pub proof fn lemma_count_at(v: Seq<(String, i64)>, i: int)
    requires
        keys_distinct(v),
        0 <= i < v.len(),
    ensures
        count_of(v, v[i].0@) == v[i].1,
{
    let k = choose|j: int| 0 <= j < v.len() && (#[trigger] v[j]).0@ == v[i].0@;
    if k != i {
        if k < i {
            assert(v[k].0@ != v[i].0@);
        } else {
            assert(v[i].0@ != v[k].0@);
        }
    }
}

/// Counters of one kind of event.
pub struct StatsBucket {
    /// All-time count.
    pub total: i64,
    /// Counts per month, keyed `YYYY-MM`.
    pub monthly: Vec<(String, i64)>,
    /// Counts per day, keyed `YYYY-MM-DD`.
    pub daily: Vec<(String, i64)>,
}

/// Statistics of parses and downloads.
pub struct StatsData {
    pub parse: StatsBucket,
    pub download: StatsBucket,
}

/// Index of `key` in the counters, if present.
fn find_key(v: &Vec<(String, i64)>, key: &str) -> (r: Option<usize>)
    ensures
        match r {
            Some(i) => i < v.len() && v@[i as int].0@ == key@,
            None => forall|i: int| 0 <= i < v.len() ==> (#[trigger] v@[i]).0@ != key@,
        },
{
    let mut j: usize = 0;
    while j < v.len()
        invariant
            j <= v.len(),
            forall|i: int| 0 <= i < j ==> (#[trigger] v@[i]).0@ != key@,
        decreases v.len() - j,
    {
        if str_eq(v[j].0.as_str(), key) {
            return Some(j);
        }
        j += 1;
    }
    None
}

/// Adds one to the counter of `key`.
fn bump(v: &mut Vec<(String, i64)>, key: &str)
    requires
        keys_distinct(old(v)@),
        count_of(old(v)@, key@) < i64::MAX,
    ensures
        keys_distinct(final(v)@),
        count_of(final(v)@, key@) == count_of(old(v)@, key@) + 1,
        forall|k: Seq<char>| k != key@ ==> count_of(final(v)@, k) == count_of(old(v)@, k),
{
    match find_key(v, key) {
        Some(i) => {
            proof {
                lemma_count_at(old(v)@, i as int);
            }
            let (name, c) = v.remove(i);
            v.insert(i, (name, c + 1));
            proof {
                let o = old(v)@;
                let n = v@;
                assert(n =~= o.update(i as int, (o[i as int].0, (c + 1) as i64)));
                assert(keys_distinct(n)) by {
                    assert forall|a: int, b: int| 0 <= a < b < n.len() implies (#[trigger] n[a]).0@
                        != (#[trigger] n[b]).0@ by {
                        assert(n[a].0 == o[a].0 && n[b].0 == o[b].0);
                    }
                }
                lemma_count_at(n, i as int);
                assert forall|k: Seq<char>| k != key@ implies count_of(n, k) == count_of(o, k) by {
                    if exists|j: int| 0 <= j < o.len() && (#[trigger] o[j]).0@ == k {
                        let j = choose|j: int| 0 <= j < o.len() && (#[trigger] o[j]).0@ == k;
                        lemma_count_at(o, j);
                        assert(n[j].0@ == k);
                        lemma_count_at(n, j);
                    } else {
                        assert forall|j: int| 0 <= j < n.len() implies (#[trigger] n[j]).0@ != k by {
                            assert(n[j].0 == o[j].0);
                        }
                    }
                }
            }
        },
        None => {
            v.push((String::from_str(key), 1));
            proof {
                let o = old(v)@;
                let n = v@;
                assert(n =~= o.push(n[n.len() - 1]));
                assert(keys_distinct(n)) by {
                    assert forall|a: int, b: int| 0 <= a < b < n.len() implies (#[trigger] n[a]).0@
                        != (#[trigger] n[b]).0@ by {
                        if b < o.len() {
                            assert(n[a] == o[a] && n[b] == o[b]);
                        } else {
                            assert(n[a] == o[a]);
                        }
                    }
                }
                lemma_count_at(n, n.len() - 1);
                assert forall|k: Seq<char>| k != key@ implies count_of(n, k) == count_of(o, k) by {
                    if exists|j: int| 0 <= j < o.len() && (#[trigger] o[j]).0@ == k {
                        let j = choose|j: int| 0 <= j < o.len() && (#[trigger] o[j]).0@ == k;
                        lemma_count_at(o, j);
                        assert(n[j] == o[j]);
                        lemma_count_at(n, j);
                    } else {
                        assert forall|j: int| 0 <= j < n.len() implies (#[trigger] n[j]).0@ != k by {
                            if j < o.len() {
                                assert(n[j] == o[j]);
                            }
                        }
                    }
                }
            }
        },
    }
}

/// The counter of `key` (0 when absent).
fn count(v: &Vec<(String, i64)>, key: &str) -> (r: i64)
    requires
        keys_distinct(v@),
    ensures
        r == count_of(v@, key@),
{
    match find_key(v, key) {
        Some(i) => {
            proof {
                lemma_count_at(v@, i as int);
            }
            v[i].1
        },
        None => 0,
    }
}

impl StatsBucket {
    /// Counter keys are distinct in both tables.
    pub open spec fn wf(&self) -> bool {
        keys_distinct(self.monthly@) && keys_distinct(self.daily@)
    }

    /// A bucket with every counter at zero.
    pub fn new() -> (b: Self)
        ensures
            b.wf(),
            b.total == 0,
            b.monthly@.len() == 0,
            b.daily@.len() == 0,
    {
        StatsBucket { total: 0, monthly: Vec::new(), daily: Vec::new() }
    }

    /// Counts one event in the month `month_key` and the day `day_key`.
    pub fn record(&mut self, month_key: &str, day_key: &str)
        requires
            old(self).wf(),
            old(self).total < i64::MAX,
            count_of(old(self).monthly@, month_key@) < i64::MAX,
            count_of(old(self).daily@, day_key@) < i64::MAX,
        ensures
            final(self).wf(),
            final(self).total == old(self).total + 1,
            count_of(final(self).monthly@, month_key@) == count_of(old(self).monthly@, month_key@)
                + 1,
            count_of(final(self).daily@, day_key@) == count_of(old(self).daily@, day_key@) + 1,
            forall|k: Seq<char>|
                k != month_key@ ==> count_of(final(self).monthly@, k) == count_of(
                    old(self).monthly@,
                    k,
                ),
            forall|k: Seq<char>|
                k != day_key@ ==> count_of(final(self).daily@, k) == count_of(old(self).daily@, k),
    {
        self.total = self.total + 1;
        bump(&mut self.monthly, month_key);
        bump(&mut self.daily, day_key);
    }

    /// All-time, this month's and today's counts.
    pub fn counts(&self, month_key: &str, day_key: &str) -> (r: (i64, i64, i64))
        requires
            self.wf(),
        ensures
            r == (self.total, count_of(self.monthly@, month_key@) as i64, count_of(
                self.daily@,
                day_key@,
            ) as i64),
    {
        (self.total, count(&self.monthly, month_key), count(&self.daily, day_key))
    }
}

impl StatsData {
    /// Both buckets are well formed.
    pub open spec fn wf(&self) -> bool {
        self.parse.wf() && self.download.wf()
    }

    /// Statistics with every counter at zero.
    pub fn new() -> (d: Self)
        ensures
            d.wf(),
            d.parse.total == 0,
            d.download.total == 0,
            d.parse.monthly@.len() == 0 && d.parse.daily@.len() == 0,
            d.download.monthly@.len() == 0 && d.download.daily@.len() == 0,
    {
        StatsData { parse: StatsBucket::new(), download: StatsBucket::new() }
    }
}

/// Whether an event kind counts as a parse (every other kind counts as a download).
pub fn is_parse_kind(kind: &str) -> (r: bool)
    ensures
        r == (kind@ == "parse"@),
{
    str_eq(kind, "parse")
}

/// The in-progress gauge after one operation finishes: it drops by one and
/// never goes below zero.
pub fn decremented(current: i32) -> (r: i32)
    ensures
        r == if current <= 0 {
            0
        } else {
            current - 1
        },
{
    if current <= 0 {
        0
    } else {
        current - 1
    }
}


/// The bucket an event kind counts in.
pub open spec fn bucket_of(d: StatsData, kind: Seq<char>) -> StatsBucket {
    if kind == "parse"@ {
        d.parse
    } else {
        d.download
    }
}

impl StatsData {
    /// Counts one event of `kind` ("parse", or anything else for a
    /// download) in the month `month_key` and the day `day_key`.
    pub fn increment(&mut self, kind: &str, month_key: &str, day_key: &str)
        requires
            old(self).wf(),
            bucket_of(*old(self), kind@).total < i64::MAX,
            count_of(bucket_of(*old(self), kind@).monthly@, month_key@) < i64::MAX,
            count_of(bucket_of(*old(self), kind@).daily@, day_key@) < i64::MAX,
        ensures
            final(self).wf(),
            kind@ == "parse"@ ==> final(self).download == old(self).download,
            kind@ != "parse"@ ==> final(self).parse == old(self).parse,
            bucket_of(*final(self), kind@).total == bucket_of(*old(self), kind@).total + 1,
            count_of(bucket_of(*final(self), kind@).monthly@, month_key@) == count_of(
                bucket_of(*old(self), kind@).monthly@,
                month_key@,
            ) + 1,
            count_of(bucket_of(*final(self), kind@).daily@, day_key@) == count_of(
                bucket_of(*old(self), kind@).daily@,
                day_key@,
            ) + 1,
            forall|k: Seq<char>|
                k != month_key@ ==> count_of(bucket_of(*final(self), kind@).monthly@, k) == count_of(
                    bucket_of(*old(self), kind@).monthly@,
                    k,
                ),
            forall|k: Seq<char>|
                k != day_key@ ==> count_of(bucket_of(*final(self), kind@).daily@, k) == count_of(
                    bucket_of(*old(self), kind@).daily@,
                    k,
                ),
    {
        if is_parse_kind(kind) {
            self.parse.record(month_key, day_key);
        } else {
            self.download.record(month_key, day_key);
        }
    }

    /// Statistics read from a file of the older single-counter format: its
    /// total becomes the parse total (0 when absent).
    pub fn from_legacy_total(total: Option<i64>) -> (d: Self)
        ensures
            d.wf(),
            d.parse.total == match total {
                Some(t) => t,
                None => 0,
            },
            d.parse.monthly@.len() == 0 && d.parse.daily@.len() == 0,
            d.download.total == 0 && d.download.monthly@.len() == 0 && d.download.daily@.len() == 0,
    {
        let mut d = StatsData::new();
        d.parse.total = match total {
            Some(t) => t,
            None => 0,
        };
        d
    }

    /// The figures shown for both buckets: all-time, this month's and
    /// today's counts, with the in-progress gauges.
    pub fn snapshot(&self, month_key: &str, day_key: &str, parse_current: i32, download_current: i32) -> (r: StatsSnapshot)
        requires
            self.wf(),
        ensures
            r.parse == (BucketFigures {
                total: self.parse.total,
                monthly: count_of(self.parse.monthly@, month_key@) as i64,
                daily: count_of(self.parse.daily@, day_key@) as i64,
                current: parse_current,
            }),
            r.download == (BucketFigures {
                total: self.download.total,
                monthly: count_of(self.download.monthly@, month_key@) as i64,
                daily: count_of(self.download.daily@, day_key@) as i64,
                current: download_current,
            }),
    {
        let (pt, pm, pd) = self.parse.counts(month_key, day_key);
        let (dt, dm, dd) = self.download.counts(month_key, day_key);
        StatsSnapshot {
            parse: BucketFigures { total: pt, monthly: pm, daily: pd, current: parse_current },
            download: BucketFigures { total: dt, monthly: dm, daily: dd, current: download_current },
        }
    }
}

/// The figures of one bucket.
#[derive(Debug, Clone, Copy, PartialEq, Eq)]
pub struct BucketFigures {
    pub total: i64,
    pub monthly: i64,
    pub daily: i64,
    pub current: i32,
}

/// The figures of both buckets.
#[derive(Debug, Clone, Copy, PartialEq, Eq)]
pub struct StatsSnapshot {
    pub parse: BucketFigures,
    pub download: BucketFigures,
}

/// The month key `YYYY-MM` of a date.
pub open spec fn month_key_spec(year: u32, month: u32) -> Seq<char> {
    decimal_padded(year as nat, 4) + seq!['-'] + decimal_padded(month as nat, 2)
}

/// The month key of a date, as `%Y-%m` formats it (years up to 9999).
pub fn month_key(year: u32, month: u32) -> (r: String)
    requires
        year <= 9999,
    ensures
        r@ == month_key_spec(year, month),
{
    let mut s = String::new();
    push_decimal_padded(&mut s, year as u64, 4);
    s.push('-');
    push_decimal_padded(&mut s, month as u64, 2);
    proof {
        assert(s@ =~= month_key_spec(year, month));
    }
    s
}

/// The day key of a date, as `%Y-%m-%d` formats it (years up to 9999).
pub fn day_key(year: u32, month: u32, day: u32) -> (r: String)
    requires
        year <= 9999,
    ensures
        r@ == month_key_spec(year, month) + seq!['-'] + decimal_padded(day as nat, 2),
{
    let mut s = month_key(year, month);
    s.push('-');
    push_decimal_padded(&mut s, day as u64, 2);
    s
}

} // verus!
