//! Validation bounds of every tunable numeric field of
//! [`RuntimeConfig`](super::RuntimeConfig), in raw units (bytes, seconds, or
//! plain counts). The single place where the bounds are written: `validate`
//! reads them, and so does anything that presents the fields for editing.

use vstd::prelude::*;

use super::Bound;

verus! {

/// Bound of `parse_concurrency`: [1, 50].
pub open spec fn spec_parse_concurrency() -> Bound {
    Bound { min: 1, max: Some(50) }
}

/// Bound of `parse_concurrency`: [1, 50].
pub fn parse_concurrency() -> (b: Bound)
    ensures
        b == spec_parse_concurrency(),
{
    Bound { min: 1, max: Some(50) }
}

/// Bound of `download_concurrency`: [1, 20].
pub open spec fn spec_download_concurrency() -> Bound {
    Bound { min: 1, max: Some(20) }
}

/// Bound of `download_concurrency`: [1, 20].
pub fn download_concurrency() -> (b: Bound)
    ensures
        b == spec_download_concurrency(),
{
    Bound { min: 1, max: Some(20) }
}

/// Bound of `batch_concurrency`: [1, 5].
pub open spec fn spec_batch_concurrency() -> Bound {
    Bound { min: 1, max: Some(5) }
}

/// Bound of `batch_concurrency`: [1, 5].
pub fn batch_concurrency() -> (b: Bound)
    ensures
        b == spec_batch_concurrency(),
{
    Bound { min: 1, max: Some(5) }
}

/// Bound of `ranged_threshold`: at least 1048576.
pub open spec fn spec_ranged_threshold() -> Bound {
    Bound { min: 1048576, max: None }
}

/// Bound of `ranged_threshold`: at least 1048576.
pub fn ranged_threshold() -> (b: Bound)
    ensures
        b == spec_ranged_threshold(),
{
    Bound { min: 1048576, max: None }
}

/// Bound of `ranged_threads`: [1, 32].
pub open spec fn spec_ranged_threads() -> Bound {
    Bound { min: 1, max: Some(32) }
}

/// Bound of `ranged_threads`: [1, 32].
pub fn ranged_threads() -> (b: Bound)
    ensures
        b == spec_ranged_threads(),
{
    Bound { min: 1, max: Some(32) }
}

/// Bound of `max_retries`: [0, 20] (0 means the profile default).
pub open spec fn spec_max_retries() -> Bound {
    Bound { min: 0, max: Some(20) }
}

/// Bound of `max_retries`: [0, 20] (0 means the profile default).
pub fn max_retries() -> (b: Bound)
    ensures
        b == spec_max_retries(),
{
    Bound { min: 0, max: Some(20) }
}

/// Bound of `download_cleanup_interval_secs`: at least 60.
pub open spec fn spec_download_cleanup_interval_secs() -> Bound {
    Bound { min: 60, max: None }
}

/// Bound of `download_cleanup_interval_secs`: at least 60.
pub fn download_cleanup_interval_secs() -> (b: Bound)
    ensures
        b == spec_download_cleanup_interval_secs(),
{
    Bound { min: 60, max: None }
}

/// Bound of `download_cleanup_max_age_secs`: at least 60.
pub open spec fn spec_download_cleanup_max_age_secs() -> Bound {
    Bound { min: 60, max: None }
}

/// Bound of `download_cleanup_max_age_secs`: at least 60.
pub fn download_cleanup_max_age_secs() -> (b: Bound)
    ensures
        b == spec_download_cleanup_max_age_secs(),
{
    Bound { min: 60, max: None }
}

/// Bound of `task_ttl_secs`: at least 60.
pub open spec fn spec_task_ttl_secs() -> Bound {
    Bound { min: 60, max: None }
}

/// Bound of `task_ttl_secs`: at least 60.
pub fn task_ttl_secs() -> (b: Bound)
    ensures
        b == spec_task_ttl_secs(),
{
    Bound { min: 60, max: None }
}

/// Bound of `zip_max_age_secs`: at least 60.
pub open spec fn spec_zip_max_age_secs() -> Bound {
    Bound { min: 60, max: None }
}

/// Bound of `zip_max_age_secs`: at least 60.
pub fn zip_max_age_secs() -> (b: Bound)
    ensures
        b == spec_zip_max_age_secs(),
{
    Bound { min: 60, max: None }
}

/// Bound of `task_cleanup_interval_secs`: at least 5.
pub open spec fn spec_task_cleanup_interval_secs() -> Bound {
    Bound { min: 5, max: None }
}

/// Bound of `task_cleanup_interval_secs`: at least 5.
pub fn task_cleanup_interval_secs() -> (b: Bound)
    ensures
        b == spec_task_cleanup_interval_secs(),
{
    Bound { min: 5, max: None }
}

/// Bound of `cover_cache_ttl_secs`: at least 60.
pub open spec fn spec_cover_cache_ttl_secs() -> Bound {
    Bound { min: 60, max: None }
}

/// Bound of `cover_cache_ttl_secs`: at least 60.
pub fn cover_cache_ttl_secs() -> (b: Bound)
    ensures
        b == spec_cover_cache_ttl_secs(),
{
    Bound { min: 60, max: None }
}

/// Bound of `cover_cache_max_size`: [1, 500].
pub open spec fn spec_cover_cache_max_size() -> Bound {
    Bound { min: 1, max: Some(500) }
}

/// Bound of `cover_cache_max_size`: [1, 500].
pub fn cover_cache_max_size() -> (b: Bound)
    ensures
        b == spec_cover_cache_max_size(),
{
    Bound { min: 1, max: Some(500) }
}

/// Bound of `batch_max_songs`: [1, 500].
pub open spec fn spec_batch_max_songs() -> Bound {
    Bound { min: 1, max: Some(500) }
}

/// Bound of `batch_max_songs`: [1, 500].
pub fn batch_max_songs() -> (b: Bound)
    ensures
        b == spec_batch_max_songs(),
{
    Bound { min: 1, max: Some(500) }
}

/// Bound of `min_free_disk`: at least 104857600.
pub open spec fn spec_min_free_disk() -> Bound {
    Bound { min: 104857600, max: None }
}

/// Bound of `min_free_disk`: at least 104857600.
pub fn min_free_disk() -> (b: Bound)
    ensures
        b == spec_min_free_disk(),
{
    Bound { min: 104857600, max: None }
}

/// Bound of `download_timeout_per_song_secs`: at least 10.
pub open spec fn spec_download_timeout_per_song_secs() -> Bound {
    Bound { min: 10, max: None }
}

/// Bound of `download_timeout_per_song_secs`: at least 10.
pub fn download_timeout_per_song_secs() -> (b: Bound)
    ensures
        b == spec_download_timeout_per_song_secs(),
{
    Bound { min: 10, max: None }
}

/// Bound of `disk_guard_grace_secs`: at least 60.
pub open spec fn spec_disk_guard_grace_secs() -> Bound {
    Bound { min: 60, max: None }
}

/// Bound of `disk_guard_grace_secs`: at least 60.
pub fn disk_guard_grace_secs() -> (b: Bound)
    ensures
        b == spec_disk_guard_grace_secs(),
{
    Bound { min: 60, max: None }
}

/// Bound of `rate_limit_rps_per_user`: [0, 1000].
pub open spec fn spec_rate_limit_rps_per_user() -> Bound {
    Bound { min: 0, max: Some(1000) }
}

/// Bound of `rate_limit_rps_per_user`: [0, 1000].
pub fn rate_limit_rps_per_user() -> (b: Bound)
    ensures
        b == spec_rate_limit_rps_per_user(),
{
    Bound { min: 0, max: Some(1000) }
}

/// Bound of `rate_limit_burst`: [0, 10000].
pub open spec fn spec_rate_limit_burst() -> Bound {
    Bound { min: 0, max: Some(10000) }
}

/// Bound of `rate_limit_burst`: [0, 10000].
pub fn rate_limit_burst() -> (b: Bound)
    ensures
        b == spec_rate_limit_burst(),
{
    Bound { min: 0, max: Some(10000) }
}

/// Bound of `url_refresh_budget`: [0, 10].
pub open spec fn spec_url_refresh_budget() -> Bound {
    Bound { min: 0, max: Some(10) }
}

/// Bound of `url_refresh_budget`: [0, 10].
pub fn url_refresh_budget() -> (b: Bound)
    ensures
        b == spec_url_refresh_budget(),
{
    Bound { min: 0, max: Some(10) }
}

/// Bound of `stall_secs`: [5, 600].
pub open spec fn spec_stall_secs() -> Bound {
    Bound { min: 5, max: Some(600) }
}

/// Bound of `stall_secs`: [5, 600].
pub fn stall_secs() -> (b: Bound)
    ensures
        b == spec_stall_secs(),
{
    Bound { min: 5, max: Some(600) }
}

} // verus!
