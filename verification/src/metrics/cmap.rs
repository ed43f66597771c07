//! A counter map backed by the concurrent map of the crate `dashmap`;
//! one instance is shared across threads through its inner `Arc`.

use std::sync::Arc;
use vstd::prelude::*;
use vstd::string::StringExecFns;

use crate::error::MetricsError;
use crate::util::Metrics;

verus! {

/// Relies on the crate `dashmap`: a sharded hash map usable from many
/// threads at once.
#[verifier::external_type_specification]
#[verifier::external_body]
#[verifier::reject_recursive_types(K)]
#[verifier::reject_recursive_types(V)]
#[verifier::reject_recursive_types(S)]
pub struct ExDashMap<K, V, S>(dashmap::DashMap<K, V, S>);

/// One step of a counter that wraps around at the top of `i64`.
pub fn bump_count(c: i64) -> (r: i64)
    ensures
        c < i64::MAX ==> r == c + 1,
        c == i64::MAX ==> r == i64::MIN,
{
    if c == i64::MAX {
        i64::MIN
    } else {
        c + 1
    }
}

/// Relies on `dashmap::DashMap::new`: creates an empty map.
#[verifier::external_body]
fn new_dash_map() -> dashmap::DashMap<String, i64> {
    dashmap::DashMap::new()
}

/// Relies on `dashmap::DashMap::entry`, `Entry::and_modify` and
/// `Entry::or_insert`: adds one to `key`'s counter, creating it at one
/// when it is absent; the closure only calls the library's
/// `bump_count`. The map is shared with other threads, so nothing is
/// promised about its contents.
#[verifier::external_body]
fn dash_map_increment(map: &Arc<dashmap::DashMap<String, i64>>, key: String) {
    map.entry(key).and_modify(|c| *c = bump_count(*c)).or_insert(1);
}

/// Relies on `dashmap::DashMap::get`: the counter of `key` at the
/// moment of the call, zero when the key is absent. The map is shared
/// with other threads, so nothing is promised about the value.
#[verifier::external_body]
fn dash_map_get(map: &Arc<dashmap::DashMap<String, i64>>, key: String) -> i64 {
    map.get(&key).map(|r| *r).unwrap_or(0)
}

/// Relies on `dashmap::DashMap::iter`: a snapshot of the map's pairs,
/// copied out one for one. The iteration order is unspecified and the
/// map is shared with other threads, so nothing is promised of the
/// result.
#[verifier::external_body]
fn dash_map_pairs(map: &Arc<dashmap::DashMap<String, i64>>) -> Vec<(String, i64)> {
    map.iter().map(|e| (e.key().clone(), *e.value())).collect()
}

/// A counter map over string keys backed by a concurrent map: clones
/// share one underlying map, and increments from any thread land in it.
pub struct CmapMetrics {
    data: Arc<dashmap::DashMap<String, i64>>,
}

impl CmapMetrics {
    pub fn new() -> (m: CmapMetrics) {
        CmapMetrics { data: Arc::new(new_dash_map()) }
    }

    /// Another handle onto the same underlying map.
    pub fn share(&self) -> (m: CmapMetrics) {
        CmapMetrics { data: Arc::clone(&self.data) }
    }

    /// The counter of `key` at this moment; other threads may move it
    /// at any time, so nothing is promised about the value.
    pub fn get(&self, key: &str) -> i64 {
        dash_map_get(&self.data, String::from_str(key))
    }

    /// Renders a snapshot of the counters, one `key: count` line per
    /// pair, in the map's own unspecified order; the stand-in for the
    /// `Display` trait. The rendering of the snapshot is exact
    /// (`render_pairs`); the snapshot itself is shared state, so
    /// nothing is promised of it.
    pub fn render(&self) -> String {
        let pairs = dash_map_pairs(&self.data);
        crate::counter::render_pairs(&pairs)
    }
}

impl Metrics for CmapMetrics {
    open spec fn inc_allowed(&self, key: &str) -> bool {
        true
    }

    open spec fn inc_post(&self, pre: CmapMetrics, key: &str, r: Result<(), MetricsError>) -> bool {
        r is Ok
    }

    /// Counts `key` in the shared map; never fails. The map's contents
    /// are shared with other threads, so no more is promised.
    fn inc(&mut self, key: &str) -> (r: Result<(), MetricsError>) {
        dash_map_increment(&self.data, String::from_str(key));
        Ok(())
    }
}

impl Default for CmapMetrics {
    fn default() -> (m: CmapMetrics) {
        CmapMetrics::new()
    }
}

} // verus!
