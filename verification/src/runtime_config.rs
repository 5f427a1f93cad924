//! Runtime-tunable configuration (edited from the admin panel) and its
//! validation bounds.

use vstd::prelude::*;

use crate::text::str_eq;

pub mod bounds;

verus! {

/// Validation bound of one tunable numeric field, in raw units.
#[derive(Clone, Copy, Debug)]
pub struct Bound {
    /// Inclusive lower bound.
    pub min: u64,
    /// Inclusive upper bound; `None` means no upper bound.
    pub max: Option<u64>,
}

impl Bound {
    /// The value lies in the bound, end points included.
    pub open spec fn spec_accepts(self, v: u64) -> bool {
        &&& self.min <= v
        &&& match self.max {
            Some(m) => v <= m,
            None => true,
        }
    }

    /// Closed interval `[min, max]`.
    pub fn range(min: u64, max: u64) -> (b: Self)
        ensures
            b.min == min,
            b.max == Some(max),
    {
        Bound { min, max: Some(max) }
    }

    /// Lower bound only: `[min, ∞)`.
    pub fn at_least(min: u64) -> (b: Self)
        ensures
            b.min == min,
            b.max.is_none(),
    {
        Bound { min, max: None }
    }

    /// Whether `v` lies within the bound (end points included).
    pub fn accepts(&self, v: u64) -> (r: bool)
        ensures
            r == self.spec_accepts(v),
    {
        if v < self.min {
            return false;
        }
        match self.max {
            Some(m) => v <= m,
            None => true,
        }
    }
}

/// Concurrency, retry, cleanup, cache, disk, rate-limit and resume settings.
#[derive(Debug, Clone)]
pub struct RuntimeConfig {
    pub parse_concurrency: usize,
    pub download_concurrency: usize,
    pub batch_concurrency: usize,
    pub ranged_threshold: u64,
    pub ranged_threads: usize,
    pub max_retries: usize,
    pub download_cleanup_interval_secs: u64,
    pub download_cleanup_max_age_secs: u64,
    pub task_ttl_secs: u64,
    pub zip_max_age_secs: u64,
    pub task_cleanup_interval_secs: u64,
    pub cover_cache_ttl_secs: u64,
    pub cover_cache_max_size: usize,
    pub batch_max_songs: usize,
    pub min_free_disk: u64,
    pub download_timeout_per_song_secs: u64,
    pub disk_guard_grace_secs: u64,
    /// Requests per second per user; 0 disables rate limiting.
    pub rate_limit_rps_per_user: u32,
    /// Largest burst of tokens.
    pub rate_limit_burst: u32,
    /// Whether a missing quality falls back down the quality ladder.
    pub quality_fallback_enabled: bool,
    /// Lowest quality the fallback may reach.
    pub quality_fallback_floor: String,
    /// Whether interrupted downloads resume (with link refresh).
    pub resume_enabled: bool,
    /// Upper bound on link refreshes within one download job.
    pub url_refresh_budget: u32,
    /// Seconds without any byte of progress before an attempt counts as stalled.
    pub stall_secs: u64,
}

/// Default stall threshold, also used when a stored configuration lacks the field.
pub fn default_stall_secs() -> (r: u64)
    ensures
        r == 30,
{
    30
}

/// The quality wire strings that a fallback floor may name.
pub open spec fn is_quality_wire(s: Seq<char>) -> bool {
    s == "standard"@ || s == "exhigh"@ || s == "lossless"@ || s == "hires"@ || s == "sky"@ || s == "jyeffect"@ || s == "jymaster"@ || s == "dolby"@
}

/// Whether `s` is one of the quality wire strings.
pub fn is_valid_quality(s: &str) -> (r: bool)
    ensures
        r == is_quality_wire(s@),
{
    if str_eq(s, "standard") {
        return true;
    }
    if str_eq(s, "exhigh") {
        return true;
    }
    if str_eq(s, "lossless") {
        return true;
    }
    if str_eq(s, "hires") {
        return true;
    }
    if str_eq(s, "sky") {
        return true;
    }
    if str_eq(s, "jyeffect") {
        return true;
    }
    if str_eq(s, "jymaster") {
        return true;
    }
    if str_eq(s, "dolby") {
        return true;
    }
    false
}

impl RuntimeConfig {
    /// The values of a fresh installation.
    pub open spec fn is_default(&self) -> bool {
        &&& self.parse_concurrency == 5
        &&& self.download_concurrency == 2
        &&& self.batch_concurrency == 1
        &&& self.ranged_threshold == 5 * 1024 * 1024
        &&& self.ranged_threads == 8
        &&& self.max_retries == 5
        &&& self.download_cleanup_interval_secs == 300
        &&& self.download_cleanup_max_age_secs == 43200
        &&& self.task_ttl_secs == 1800
        &&& self.zip_max_age_secs == 3600
        &&& self.task_cleanup_interval_secs == 60
        &&& self.cover_cache_ttl_secs == 600
        &&& self.cover_cache_max_size == 50
        &&& self.batch_max_songs == 100
        &&& self.min_free_disk == 500 * 1024 * 1024
        &&& self.download_timeout_per_song_secs == 300
        &&& self.disk_guard_grace_secs == 300
        &&& self.rate_limit_rps_per_user == 10
        &&& self.rate_limit_burst == 20
        &&& self.quality_fallback_enabled
        &&& self.quality_fallback_floor@ == "standard"@
        &&& self.resume_enabled
        &&& self.url_refresh_budget == 2
        &&& self.stall_secs == 30
    }

    /// Outcome of validation: the message of the first violated rule, in
    /// field order, or `Ok` when every rule holds.
    pub open spec fn validation(&self) -> Result<(), Seq<char>> {
        if !bounds::spec_parse_concurrency().spec_accepts(self.parse_concurrency as u64) {
            Err("parse_concurrency must be 1..50"@)
        } else if !bounds::spec_download_concurrency().spec_accepts(self.download_concurrency as u64) {
            Err("download_concurrency must be 1..20"@)
        } else if !bounds::spec_batch_concurrency().spec_accepts(self.batch_concurrency as u64) {
            Err("batch_concurrency must be 1..5"@)
        } else if !bounds::spec_ranged_threshold().spec_accepts(self.ranged_threshold) {
            Err("ranged_threshold must be >= 1MB"@)
        } else if !bounds::spec_ranged_threads().spec_accepts(self.ranged_threads as u64) {
            Err("ranged_threads must be 1..32"@)
        } else if !bounds::spec_max_retries().spec_accepts(self.max_retries as u64) {
            Err("max_retries must be 0..20"@)
        } else if !bounds::spec_download_cleanup_interval_secs().spec_accepts(self.download_cleanup_interval_secs) {
            Err("download_cleanup_interval_secs must be >= 60"@)
        } else if !bounds::spec_download_cleanup_max_age_secs().spec_accepts(self.download_cleanup_max_age_secs) {
            Err("download_cleanup_max_age_secs must be >= 60"@)
        } else if !bounds::spec_task_ttl_secs().spec_accepts(self.task_ttl_secs) {
            Err("task_ttl_secs must be >= 60"@)
        } else if !bounds::spec_zip_max_age_secs().spec_accepts(self.zip_max_age_secs) {
            Err("zip_max_age_secs must be >= 60"@)
        } else if !bounds::spec_task_cleanup_interval_secs().spec_accepts(self.task_cleanup_interval_secs) {
            Err("task_cleanup_interval_secs must be >= 5"@)
        } else if !bounds::spec_cover_cache_ttl_secs().spec_accepts(self.cover_cache_ttl_secs) {
            Err("cover_cache_ttl_secs must be >= 60"@)
        } else if !bounds::spec_cover_cache_max_size().spec_accepts(self.cover_cache_max_size as u64) {
            Err("cover_cache_max_size must be 1..500"@)
        } else if !bounds::spec_batch_max_songs().spec_accepts(self.batch_max_songs as u64) {
            Err("batch_max_songs must be 1..500"@)
        } else if !bounds::spec_min_free_disk().spec_accepts(self.min_free_disk) {
            Err("min_free_disk must be >= 100MB"@)
        } else if !bounds::spec_download_timeout_per_song_secs().spec_accepts(self.download_timeout_per_song_secs) {
            Err("download_timeout_per_song_secs must be >= 10"@)
        } else if !bounds::spec_disk_guard_grace_secs().spec_accepts(self.disk_guard_grace_secs) {
            Err("disk_guard_grace_secs must be >= 60"@)
        } else if !bounds::spec_rate_limit_rps_per_user().spec_accepts(self.rate_limit_rps_per_user as u64) {
            Err("rate_limit_rps_per_user must be 0..=1000"@)
        } else if !bounds::spec_rate_limit_burst().spec_accepts(self.rate_limit_burst as u64) {
            Err("rate_limit_burst must be 0..=10000"@)
        } else if self.rate_limit_rps_per_user > 0 && self.rate_limit_burst < self.rate_limit_rps_per_user {
            Err("rate_limit_burst must be >= rate_limit_rps_per_user"@)
        } else if !is_quality_wire(self.quality_fallback_floor@) {
            Err("quality_fallback_floor must be a valid Quality wire string"@)
        } else if !bounds::spec_url_refresh_budget().spec_accepts(self.url_refresh_budget as u64) {
            Err("url_refresh_budget must be 0..=10"@)
        } else if !bounds::spec_stall_secs().spec_accepts(self.stall_secs) {
            Err("stall_secs must be 5..=600"@)
        } else {
            Ok(())
        }
    }

    /// Checks every field against its bound and the cross-field rules
    /// (burst not below the per-user rate when limiting is on; a known
    /// quality wire string as the fallback floor). Returns the message of
    /// the first violated rule.
    pub fn validate(&self) -> (r: Result<(), String>)
        ensures
            match (r, self.validation()) {
                (Ok(()), Ok(())) => true,
                (Err(m), Err(s)) => m@ == s,
                _ => false,
            },
    {
        if !bounds::parse_concurrency().accepts(self.parse_concurrency as u64) {
            return Err(String::from_str("parse_concurrency must be 1..50"));
        }
        if !bounds::download_concurrency().accepts(self.download_concurrency as u64) {
            return Err(String::from_str("download_concurrency must be 1..20"));
        }
        if !bounds::batch_concurrency().accepts(self.batch_concurrency as u64) {
            return Err(String::from_str("batch_concurrency must be 1..5"));
        }
        if !bounds::ranged_threshold().accepts(self.ranged_threshold) {
            return Err(String::from_str("ranged_threshold must be >= 1MB"));
        }
        if !bounds::ranged_threads().accepts(self.ranged_threads as u64) {
            return Err(String::from_str("ranged_threads must be 1..32"));
        }
        if !bounds::max_retries().accepts(self.max_retries as u64) {
            return Err(String::from_str("max_retries must be 0..20"));
        }
        if !bounds::download_cleanup_interval_secs().accepts(self.download_cleanup_interval_secs) {
            return Err(String::from_str("download_cleanup_interval_secs must be >= 60"));
        }
        if !bounds::download_cleanup_max_age_secs().accepts(self.download_cleanup_max_age_secs) {
            return Err(String::from_str("download_cleanup_max_age_secs must be >= 60"));
        }
        if !bounds::task_ttl_secs().accepts(self.task_ttl_secs) {
            return Err(String::from_str("task_ttl_secs must be >= 60"));
        }
        if !bounds::zip_max_age_secs().accepts(self.zip_max_age_secs) {
            return Err(String::from_str("zip_max_age_secs must be >= 60"));
        }
        if !bounds::task_cleanup_interval_secs().accepts(self.task_cleanup_interval_secs) {
            return Err(String::from_str("task_cleanup_interval_secs must be >= 5"));
        }
        if !bounds::cover_cache_ttl_secs().accepts(self.cover_cache_ttl_secs) {
            return Err(String::from_str("cover_cache_ttl_secs must be >= 60"));
        }
        if !bounds::cover_cache_max_size().accepts(self.cover_cache_max_size as u64) {
            return Err(String::from_str("cover_cache_max_size must be 1..500"));
        }
        if !bounds::batch_max_songs().accepts(self.batch_max_songs as u64) {
            return Err(String::from_str("batch_max_songs must be 1..500"));
        }
        if !bounds::min_free_disk().accepts(self.min_free_disk) {
            return Err(String::from_str("min_free_disk must be >= 100MB"));
        }
        if !bounds::download_timeout_per_song_secs().accepts(self.download_timeout_per_song_secs) {
            return Err(String::from_str("download_timeout_per_song_secs must be >= 10"));
        }
        if !bounds::disk_guard_grace_secs().accepts(self.disk_guard_grace_secs) {
            return Err(String::from_str("disk_guard_grace_secs must be >= 60"));
        }
        if !bounds::rate_limit_rps_per_user().accepts(self.rate_limit_rps_per_user as u64) {
            return Err(String::from_str("rate_limit_rps_per_user must be 0..=1000"));
        }
        if !bounds::rate_limit_burst().accepts(self.rate_limit_burst as u64) {
            return Err(String::from_str("rate_limit_burst must be 0..=10000"));
        }
        if self.rate_limit_rps_per_user > 0 && self.rate_limit_burst < self.rate_limit_rps_per_user {
            return Err(String::from_str("rate_limit_burst must be >= rate_limit_rps_per_user"));
        }
        if !is_valid_quality(self.quality_fallback_floor.as_str()) {
            return Err(String::from_str("quality_fallback_floor must be a valid Quality wire string"));
        }
        if !bounds::url_refresh_budget().accepts(self.url_refresh_budget as u64) {
            return Err(String::from_str("url_refresh_budget must be 0..=10"));
        }
        if !bounds::stall_secs().accepts(self.stall_secs) {
            return Err(String::from_str("stall_secs must be 5..=600"));
        }
        Ok(())
    }
}

impl Default for RuntimeConfig {
    fn default() -> (c: Self)
        ensures
            c.is_default(),
    {
        RuntimeConfig {
            parse_concurrency: 5,
            download_concurrency: 2,
            batch_concurrency: 1,
            ranged_threshold: 5 * 1024 * 1024,
            ranged_threads: 8,
            max_retries: 5,
            download_cleanup_interval_secs: 300,
            download_cleanup_max_age_secs: 43200,
            task_ttl_secs: 1800,
            zip_max_age_secs: 3600,
            task_cleanup_interval_secs: 60,
            cover_cache_ttl_secs: 600,
            cover_cache_max_size: 50,
            batch_max_songs: 100,
            min_free_disk: 500 * 1024 * 1024,
            download_timeout_per_song_secs: 300,
            disk_guard_grace_secs: 300,
            rate_limit_rps_per_user: 10,
            rate_limit_burst: 20,
            quality_fallback_enabled: true,
            quality_fallback_floor: String::from_str("standard"),
            resume_enabled: true,
            url_refresh_budget: 2,
            stall_secs: default_stall_secs(),
        }
    }
}

} // verus!
