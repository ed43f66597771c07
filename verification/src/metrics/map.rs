//! A counter map over string keys that implements the worker-facing
//! `Metrics` capability.

use vstd::prelude::*;

use crate::counter::{render_entries, CountTable};
use crate::error::MetricsError;
use crate::util::Metrics;

verus! {

/// A counter map over string keys: incrementing a new key creates it at
/// zero first. An embedding program that shares one instance across
/// threads wraps it in its own lock.
pub struct HmapMetrics {
    data: CountTable,
}

impl View for HmapMetrics {
    type V = Map<Seq<char>, int>;

    closed spec fn view(&self) -> Map<Seq<char>, int> {
        self.data@
    }
}

impl HmapMetrics {
    /// One counter per key, and no key twice.
    pub closed spec fn wf(&self) -> bool {
        self.data.wf()
    }

    /// The key/count pairs in insertion order.
    pub closed spec fn entries(&self) -> Seq<(Seq<char>, int)> {
        self.data.entries()
    }

    /// Renders the counters, one `key: count` line per key, in
    /// insertion order; the stand-in for the `Display` trait.
    pub fn render(&self) -> (s: String)
        requires
            self.wf(),
        ensures
            s@ == render_entries(self.entries()),
    {
        self.data.render()
    }

    pub fn new() -> (m: HmapMetrics)
        ensures
            m.wf(),
            m@ == Map::<Seq<char>, int>::empty(),
            m.entries() == Seq::<(Seq<char>, int)>::empty(),
    {
        HmapMetrics { data: CountTable::new() }
    }

    /// The counter of `key`; zero when the key is absent.
    pub fn get(&self, key: &str) -> (c: i64)
        requires
            self.wf(),
        ensures
            c == (if self@.contains_key(key@) {
                self@[key@]
            } else {
                0
            }),
    {
        self.data.get(key)
    }
}

impl Metrics for HmapMetrics {
    open spec fn inc_allowed(&self, key: &str) -> bool {
        self.wf() && (self@.contains_key(key@) ==> self@[key@] < i64::MAX)
    }

    open spec fn inc_post(&self, pre: HmapMetrics, key: &str, r: Result<(), MetricsError>) -> bool {
        &&& self.wf()
        &&& r is Ok
        &&& self@ == pre@.insert(
            key@,
            (if pre@.contains_key(key@) {
                pre@[key@] + 1
            } else {
                1
            }),
        )
        &&& self.entries().len() == (if pre@.contains_key(key@) {
            pre.entries().len() as int
        } else {
            pre.entries().len() as int + 1
        })
        &&& forall|i: int|
            0 <= i < pre.entries().len() ==> #[trigger] self.entries()[i] == (
            if pre.entries()[i].0 == key@ {
                (key@, pre.entries()[i].1 + 1)
            } else {
                pre.entries()[i]
            })
        &&& (!pre@.contains_key(key@) ==> self.entries() == pre.entries().push((key@, 1int)))
    }

    /// Adds one to `key`'s counter, creating it at zero first when the
    /// key is new; never fails.
    fn inc(&mut self, key: &str) -> (r: Result<(), MetricsError>) {
        self.data.bump(key);
        Ok(())
    }
}

impl Default for HmapMetrics {
    fn default() -> (m: HmapMetrics)
        ensures
            m.wf(),
            m@ == Map::<Seq<char>, int>::empty(),
            m.entries() == Seq::<(Seq<char>, int)>::empty(),
    {
        HmapMetrics::new()
    }
}

} // verus!
