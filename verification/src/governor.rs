//! The retry governor: a counter for each task, kept in a `moka` cache whose
//! entries expire, and the threshold at which a task is given up.

use moka::sync::Cache;
use std::time::Duration;
use vstd::prelude::*;

verus! {

#[verifier::external_type_specification]
#[verifier::external_body]
#[verifier::reject_recursive_types(K)]
#[verifier::reject_recursive_types(V)]
#[verifier::reject_recursive_types(S)]
pub struct ExCache<K, V, S>(Cache<K, V, S>);

/// How often a task may enter the fetch phase.
pub const RETRY_LIMIT: i32 = 5;

/// How many tasks the governor tracks at most.
pub const RETRY_CAPACITY: u64 = 1024;

/// After how many seconds an entry of the governor expires.
pub const RETRY_TTL_SECS: u64 = 3600;

/// Builds a cache with `Cache::builder`, `max_capacity`, `time_to_live` and
/// `build`. The builder refuses a time to live of more than 1000 years.
/// The cache keeps the two limits it was built with. What it holds later
/// depends on the clock, so nothing is claimed of that.
#[verifier::external_body]
fn cache_new(max_capacity: u64, ttl_secs: u64) -> (cache: Cache<String, i32>)
    requires
        ttl_secs <= 31536000000,
    ensures
        cache_max_capacity(cache) == Some(max_capacity),
        cache_time_to_live(cache) == Some(ttl_secs),
{
    Cache::builder().max_capacity(max_capacity).time_to_live(Duration::from_secs(ttl_secs)).build()
}

/// Calls `Cache::entry` and `or_insert`: the value stored under the key,
/// or `initial`, stored now, where the key has none. Which of the two comes
/// back depends on the clock and on what the cache has evicted.
#[verifier::external_body]
fn cache_get_or_insert(cache: &Cache<String, i32>, key: &str, initial: i32) -> (value: i32) {
    cache.entry(key.to_string()).or_insert(initial).into_value()
}

/// Calls `Cache::insert`: stores the value under the key.
#[verifier::external_body]
fn cache_insert(cache: &Cache<String, i32>, key: &str, value: i32) {
    cache.insert(key.to_string(), value)
}

/// The count that follows a count.
pub open spec fn count_after(count: i32) -> i32 {
    if count < i32::MAX {
        (count + 1) as i32
    } else {
        count
    }
}

/// The count that follows a count: one more, as long as the number holds it.
pub fn next_count(count: i32) -> (r: i32)
    ensures
        r == count_after(count),
{
    if count < i32::MAX {
        count + 1
    } else {
        count
    }
}

/// Whether a task with this count has used up its entries into the fetch
/// phase.
pub fn is_exhausted(count: i32) -> (r: bool)
    ensures
        r == (count > RETRY_LIMIT),
{
    count > RETRY_LIMIT
}

/// A cache for the governor: room for 1024 tasks, entries expire after one
/// hour.
pub fn new_governor() -> (cache: Cache<String, i32>)
    ensures
        cache_max_capacity(cache) == Some(RETRY_CAPACITY),
        cache_time_to_live(cache) == Some(RETRY_TTL_SECS),
{
    cache_new(RETRY_CAPACITY, RETRY_TTL_SECS)
}

/// Counts one more entry of the task into the fetch phase and gives the new
/// count. A task without an entry, or whose entry has expired or was
/// evicted, starts from zero.
pub fn increment(cache: &Cache<String, i32>, task_key: &str) -> (count: i32)
    ensures
        count > i32::MIN,
{
    let before = cache_get_or_insert(cache, task_key, 0);
    let count = next_count(before);
    cache_insert(cache, task_key, count);
    count
}

/// The count after a number of entries into the fetch phase, for a task
/// whose entry does not expire in between.
pub open spec fn count_of_entries(entries: nat) -> i32
    decreases entries,
{
    if entries == 0 {
        0
    } else {
        count_after(count_of_entries((entries - 1) as nat))
    }
}

/// Without expiry the count is the number of entries, so a task has used up
/// its entries exactly from the sixth on.
pub proof fn lemma_count_of_entries(entries: nat)
    requires
        entries <= i32::MAX,
    ensures
        count_of_entries(entries) == entries,
        count_of_entries(entries) > RETRY_LIMIT <==> entries > 5,
    decreases entries,
{
    if entries > 0 {
        lemma_count_of_entries((entries - 1) as nat);
    }
}

/// The number of entries that a cache was built to hold at most, as the
/// `max_capacity` of `Cache::policy` reports it; `None` for a cache without
/// such a limit. The limit of a cache never changes.
pub uninterp spec fn cache_max_capacity(cache: Cache<String, i32>) -> Option<u64>;

/// The seconds after which an entry of a cache expires, as the
/// `time_to_live` of `Cache::policy` reports them; `None` for a cache whose
/// entries do not expire by age. The limit of a cache never changes.
pub uninterp spec fn cache_time_to_live(cache: Cache<String, i32>) -> Option<u64>;

} // verus!
