//! Counter maps over string keys, in several flavours.

pub mod amap;
pub mod cmap;
pub mod map;

use vstd::prelude::*;

use crate::counter::{render_entries, CountTable};
use crate::error::MetricsError;

verus! {

/// A counter map over string keys: `inc` adds one to a key's counter,
/// creating it at zero first when the key is new. An embedding program
/// that shares one instance across threads wraps it in its own lock.
pub struct Metrics {
    data: CountTable,
}

impl View for Metrics {
    type V = Map<Seq<char>, int>;

    closed spec fn view(&self) -> Map<Seq<char>, int> {
        self.data@
    }
}

impl Metrics {
    /// One counter per key, and no key twice.
    pub closed spec fn wf(&self) -> bool {
        self.data.wf()
    }

    /// The key/count pairs in insertion order.
    pub closed spec fn entries(&self) -> Seq<(Seq<char>, int)> {
        self.data.entries()
    }

    /// Renders the counters, one `key: count` line per key, in
    /// insertion order; the stand-in for the `Display` trait.
    pub fn render(&self) -> (s: String)
        requires
            self.wf(),
        ensures
            s@ == render_entries(self.entries()),
    {
        self.data.render()
    }

    pub fn new() -> (m: Metrics)
        ensures
            m.wf(),
            m@ == Map::<Seq<char>, int>::empty(),
            m.entries() == Seq::<(Seq<char>, int)>::empty(),
    {
        Metrics::default()
    }

    /// Adds one to `key`'s counter, creating it at zero first when the
    /// key is new; never fails.
    pub fn inc(&mut self, key: &str) -> (r: Result<(), MetricsError>)
        requires
            old(self).wf(),
            old(self)@.contains_key(key@) ==> old(self)@[key@] < i64::MAX,
        ensures
            final(self).wf(),
            r is Ok,
            final(self)@ == old(self)@.insert(
                key@,
                (if old(self)@.contains_key(key@) {
                    old(self)@[key@] + 1
                } else {
                    1
                }),
            ),
            final(self).entries().len() == (if old(self)@.contains_key(key@) {
                old(self).entries().len() as int
            } else {
                old(self).entries().len() as int + 1
            }),
            forall|i: int|
                0 <= i < old(self).entries().len() ==> #[trigger] final(self).entries()[i] == (
                if old(self).entries()[i].0 == key@ {
                    (key@, old(self).entries()[i].1 + 1)
                } else {
                    old(self).entries()[i]
                }),
            !old(self)@.contains_key(key@) ==> final(self).entries() == old(self).entries().push(
                (key@, 1int),
            ),
    {
        self.data.bump(key);
        Ok(())
    }

    /// The counter of `key`; zero when the key is absent.
    pub fn get(&self, key: &str) -> (c: i64)
        requires
            self.wf(),
        ensures
            c == (if self@.contains_key(key@) {
                self@[key@]
            } else {
                0
            }),
    {
        self.data.get(key)
    }
}

impl Default for Metrics {
    fn default() -> (m: Metrics)
        ensures
            m.wf(),
            m@ == Map::<Seq<char>, int>::empty(),
            m.entries() == Seq::<(Seq<char>, int)>::empty(),
    {
        Metrics { data: CountTable::new() }
    }
}

} // verus!
