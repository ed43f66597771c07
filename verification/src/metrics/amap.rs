//! A counter over a key set that is fixed at construction.

use vstd::prelude::*;

use crate::counter::{render_entries, CountTable};
use crate::error::MetricsError;
use crate::util::Metrics;

verus! {

/// The names are pairwise distinct, compared by their characters.
pub open spec fn distinct_names(names: Seq<&str>) -> bool {
    forall|i: int, j: int|
        #![trigger names[i], names[j]]
        0 <= i < j < names.len() ==> names[i]@ != names[j]@
}

/// One zeroed entry per name, in order: the entries of a fresh counter
/// built over distinct names.
pub open spec fn zeroed_entries(names: Seq<&str>, n: int) -> Seq<(Seq<char>, int)> {
    Seq::new(n as nat, |q: int| (names[q]@, 0int))
}

/// A counter map whose keys are fixed when it is built: incrementing a
/// registered key counts it, incrementing an unknown key is refused.
pub struct AmapMetrics {
    data: CountTable,
}

impl View for AmapMetrics {
    type V = Map<Seq<char>, int>;

    closed spec fn view(&self) -> Map<Seq<char>, int> {
        self.data@
    }
}

impl AmapMetrics {
    /// One counter per key, and no key twice.
    pub closed spec fn wf(&self) -> bool {
        self.data.wf()
    }

    /// The key/count pairs in insertion order.
    pub closed spec fn entries(&self) -> Seq<(Seq<char>, int)> {
        self.data.entries()
    }

    /// Renders the counters, one `key: count` line per key, in
    /// insertion order; the stand-in for the `Display` trait.
    pub fn render(&self) -> (s: String)
        requires
            self.wf(),
        ensures
            s@ == render_entries(self.entries()),
    {
        self.data.render()
    }

    /// Builds the counter with every given name registered at zero;
    /// repeated names collapse into one counter.
    pub fn new(metrics_name: &[&str]) -> (m: AmapMetrics)
        ensures
            m.wf(),
            forall|i: int|
                0 <= i < metrics_name@.len() ==> m@.contains_key(
                    (#[trigger] metrics_name@[i])@,
                ) && m@[metrics_name@[i]@] == 0,
            forall|k: Seq<char>| #[trigger]
                m@.contains_key(k) ==> exists|i: int|
                    0 <= i < metrics_name@.len() && (#[trigger] metrics_name@[i])@ == k,
            forall|q: int| 0 <= q < m.entries().len() ==> (#[trigger] m.entries()[q]).1 == 0,
            distinct_names(metrics_name@) ==> m.entries() == zeroed_entries(
                metrics_name@,
                metrics_name@.len() as int,
            ),
    {
        let mut t = CountTable::new();
        proof {
            assert(t.entries() =~= zeroed_entries(metrics_name@, 0));
        }
        let n = metrics_name.len();
        for i in 0..n
            invariant
                t.wf(),
                n == metrics_name@.len(),
                forall|m2: int|
                    0 <= m2 < i ==> t@.contains_key((#[trigger] metrics_name@[m2])@)
                        && t@[metrics_name@[m2]@] == 0,
                forall|k: Seq<char>| #[trigger]
                    t@.contains_key(k) ==> exists|m2: int|
                        0 <= m2 < i && (#[trigger] metrics_name@[m2])@ == k,
                forall|q: int| 0 <= q < t.entries().len() ==> (#[trigger] t.entries()[q]).1 == 0,
                distinct_names(metrics_name@) ==> t.entries() == zeroed_entries(
                    metrics_name@,
                    i as int,
                ),
        {
            let name = metrics_name[i];
            let ghost pre = t;
            t.insert_zero(name);
            proof {
                if distinct_names(metrics_name@) {
                    if pre@.contains_key(name@) {
                        let m2 = choose|m2: int|
                            0 <= m2 < i && (#[trigger] metrics_name@[m2])@ == name@;
                        assert(metrics_name@[m2]@ != metrics_name@[i as int]@);
                        assert(false);
                    }
                    assert(t.entries() =~= zeroed_entries(metrics_name@, i as int + 1));
                }
            }
        }
        AmapMetrics { data: t }
    }

    /// The counter of `key`; zero when the key is not registered.
    pub fn get(&self, key: &str) -> (c: i64)
        requires
            self.wf(),
        ensures
            c == (if self@.contains_key(key@) {
                self@[key@]
            } else {
                0
            }),
    {
        self.data.get(key)
    }
}

impl Metrics for AmapMetrics {
    open spec fn inc_allowed(&self, key: &str) -> bool {
        self.wf() && (self@.contains_key(key@) ==> self@[key@] < i64::MAX)
    }

    open spec fn inc_post(&self, pre: AmapMetrics, key: &str, r: Result<(), MetricsError>) -> bool {
        &&& self.wf()
        &&& (if pre@.contains_key(key@) {
            r is Ok && self@ == pre@.insert(key@, pre@[key@] + 1) && self.entries().len()
                == pre.entries().len() && (forall|i: int|
                0 <= i < pre.entries().len() ==> #[trigger] self.entries()[i] == (
                if pre.entries()[i].0 == key@ {
                    (key@, pre.entries()[i].1 + 1)
                } else {
                    pre.entries()[i]
                }))
        } else {
            r == Err::<(), MetricsError>(MetricsError::KeyNotFound) && self@ == pre@
                && self.entries() == pre.entries()
        })
    }

    /// Counts `key` when it is registered; an unknown key is refused
    /// with `KeyNotFound` and nothing changes.
    fn inc(&mut self, key: &str) -> (r: Result<(), MetricsError>) {
        if self.data.bump_existing(key) {
            Ok(())
        } else {
            proof {
                assert(self.entries() =~= old(self).entries());
            }
            Err(MetricsError::KeyNotFound)
        }
    }
}

} // verus!
