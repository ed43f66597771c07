//! The counting table behind the metrics variants: an insertion-ordered
//! association of unique string keys with signed counters, viewed as a
//! map from key characters to count.

use vstd::prelude::*;
use vstd::string::StringExecFns;

use crate::text::{dec_int, push_i64_decimal};

verus! {

/// No key occurs twice.
pub open spec fn unique_keys(keys: Seq<String>) -> bool {
    forall|i: int, j: int|
        #![trigger keys[i], keys[j]]
        0 <= i < j < keys.len() ==> keys[i]@ != keys[j]@
}

/// The map an association of keys and counts denotes; later entries win,
/// though the table never holds a key twice.
pub open spec fn map_of(keys: Seq<String>, counts: Seq<i64>) -> Map<Seq<char>, int>
    decreases keys.len(),
{
    if keys.len() == 0 {
        Map::empty()
    } else {
        map_of(keys.drop_last(), counts.drop_last()).insert(
            keys.last()@,
            counts.last() as int,
        )
    }
}

proof fn lemma_map_of_index(keys: Seq<String>, counts: Seq<i64>, i: int)
    requires
        keys.len() == counts.len(),
        unique_keys(keys),
        0 <= i < keys.len(),
    ensures
        map_of(keys, counts).contains_key(keys[i]@),
        map_of(keys, counts)[keys[i]@] == counts[i],
    decreases keys.len(),
{
    if i == keys.len() - 1 {
    } else {
        lemma_map_of_index(keys.drop_last(), counts.drop_last(), i);
        assert(keys[keys.len() - 1]@ != keys[i]@);
    }
}

proof fn lemma_map_of_absent(keys: Seq<String>, counts: Seq<i64>, k: Seq<char>)
    requires
        keys.len() == counts.len(),
        forall|i: int| 0 <= i < keys.len() ==> (#[trigger] keys[i])@ != k,
    ensures
        !map_of(keys, counts).contains_key(k),
    decreases keys.len(),
{
    if keys.len() > 0 {
        lemma_map_of_absent(keys.drop_last(), counts.drop_last(), k);
        assert(keys[keys.len() - 1]@ != k);
    }
}

proof fn lemma_map_of_update(keys: Seq<String>, counts: Seq<i64>, i: int, v: i64)
    requires
        keys.len() == counts.len(),
        unique_keys(keys),
        0 <= i < keys.len(),
    ensures
        map_of(keys, counts.update(i, v)) == map_of(keys, counts).insert(keys[i]@, v as int),
    decreases keys.len(),
{
    let last = keys.len() - 1;
    if i == last {
        assert(counts.update(i, v).drop_last() =~= counts.drop_last());
        assert(counts.update(i, v).last() == v);
        assert(map_of(keys, counts.update(i, v)) =~= map_of(keys, counts).insert(
            keys[i]@,
            v as int,
        ));
    } else {
        assert(counts.update(i, v).drop_last() =~= counts.drop_last().update(i, v));
        assert(counts.update(i, v).last() == counts.last());
        lemma_map_of_update(keys.drop_last(), counts.drop_last(), i, v);
        assert(keys[last]@ != keys[i]@);
        assert(map_of(keys, counts.update(i, v)) =~= map_of(keys, counts).insert(
            keys[i]@,
            v as int,
        ));
    }
}

/// The rendering of a run of key/count pairs: one `key: count` line per
/// pair, in order.
pub open spec fn render_entries(es: Seq<(Seq<char>, int)>) -> Seq<char>
    decreases es.len(),
{
    if es.len() == 0 {
        Seq::empty()
    } else {
        render_entries(es.drop_last()) + es.last().0 + ": "@ + dec_int(es.last().1) + seq!['\n']
    }
}

/// The character-level views of key/count pairs.
pub open spec fn pair_views(pairs: Seq<(String, i64)>) -> Seq<(Seq<char>, int)> {
    Seq::new(pairs.len(), |i: int| (pairs[i].0@, pairs[i].1 as int))
}

/// Renders the given key/count pairs, one `key: count` line each, in
/// the order given.
pub fn render_pairs(pairs: &Vec<(String, i64)>) -> (s: String)
    ensures
        s@ == render_entries(pair_views(pairs@)),
{
    let mut s = String::new();
    let n = pairs.len();
    proof {
        assert(pair_views(pairs@).take(0) =~= Seq::<(Seq<char>, int)>::empty());
        assert(s@ =~= render_entries(pair_views(pairs@).take(0)));
    }
    for i in 0..n
        invariant
            n == pairs@.len(),
            s@ == render_entries(pair_views(pairs@).take(i as int)),
    {
        s.append(pairs[i].0.as_str());
        s.append(": ");
        proof {
            reveal_strlit(": ");
        }
        push_i64_decimal(&mut s, pairs[i].1);
        s.append("\n");
        proof {
            reveal_strlit("\n");
            assert(pair_views(pairs@).take(i + 1).drop_last() =~= pair_views(pairs@).take(i as int));
            assert(pair_views(pairs@).take(i + 1).last() == (
                pairs@[i as int].0@,
                pairs@[i as int].1 as int,
            ));
            assert("\n"@ =~= seq!['\n']);
            assert(s@ =~= render_entries(pair_views(pairs@).take(i + 1)));
        }
    }
    proof {
        assert(pair_views(pairs@).take(n as int) =~= pair_views(pairs@));
    }
    s
}

/// An insertion-ordered table of unique string keys, each with a signed
/// counter.
pub struct CountTable {
    keys: Vec<String>,
    counts: Vec<i64>,
}

impl View for CountTable {
    type V = Map<Seq<char>, int>;

    closed spec fn view(&self) -> Map<Seq<char>, int> {
        map_of(self.keys@, self.counts@)
    }
}

impl CountTable {
    /// One counter per key, and no key twice.
    pub closed spec fn wf(&self) -> bool {
        &&& self.keys@.len() == self.counts@.len()
        &&& unique_keys(self.keys@)
    }

    /// The key/count pairs in insertion order.
    pub closed spec fn entries(&self) -> Seq<(Seq<char>, int)> {
        Seq::new(self.keys@.len(), |i: int| (self.keys@[i]@, self.counts@[i] as int))
    }

    pub fn new() -> (t: CountTable)
        ensures
            t.wf(),
            t@ == Map::<Seq<char>, int>::empty(),
            t.entries() == Seq::<(Seq<char>, int)>::empty(),
    {
        let t = CountTable { keys: Vec::new(), counts: Vec::new() };
        proof {
            assert(t.entries() =~= Seq::<(Seq<char>, int)>::empty());
        }
        t
    }

    /// Renders the table, one `key: count` line per entry, in insertion
    /// order; the stand-in for the `Display` trait.
    pub fn render(&self) -> (s: String)
        requires
            self.wf(),
        ensures
            s@ == render_entries(self.entries()),
    {
        let mut s = String::new();
        let n = self.keys.len();
        proof {
            assert(self.entries().take(0) =~= Seq::<(Seq<char>, int)>::empty());
            assert(s@ =~= render_entries(self.entries().take(0)));
        }
        for i in 0..n
            invariant
                self.wf(),
                n == self.keys@.len(),
                s@ == render_entries(self.entries().take(i as int)),
        {
            s.append(self.keys[i].as_str());
            s.append(": ");
            proof {
                reveal_strlit(": ");
            }
            push_i64_decimal(&mut s, self.counts[i]);
            s.append("\n");
            proof {
                reveal_strlit("\n");
                assert(self.entries().take(i + 1).drop_last() =~= self.entries().take(i as int));
                assert(self.entries().take(i + 1).last() == (
                    self.keys@[i as int]@,
                    self.counts@[i as int] as int,
                ));
                assert("\n"@ =~= seq!['\n']);
                assert(s@ =~= render_entries(self.entries().take(i + 1)));
            }
        }
        proof {
            assert(self.entries().take(n as int) =~= self.entries());
        }
        s
    }

    fn find(&self, key: &String) -> (r: Option<usize>)
        requires
            self.wf(),
        ensures
            match r {
                Some(i) => i < self.keys@.len() && self.keys@[i as int]@ == key@,
                None => forall|i: int| 0 <= i < self.keys@.len() ==> (#[trigger] self.keys@[i])@
                    != key@,
            },
    {
        let n = self.keys.len();
        for i in 0..n
            invariant
                n == self.keys@.len(),
                forall|m: int| 0 <= m < i ==> (#[trigger] self.keys@[m])@ != key@,
        {
            if self.keys[i] == *key {
                return Some(i);
            }
        }
        None
    }

    /// The counter of `key`; zero when the key is absent.
    pub fn get(&self, key: &str) -> (c: i64)
        requires
            self.wf(),
        ensures
            c == (if self@.contains_key(key@) {
                self@[key@]
            } else {
                0
            }),
    {
        let k = String::from_str(key);
        match self.find(&k) {
            Some(i) => {
                proof {
                    lemma_map_of_index(self.keys@, self.counts@, i as int);
                }
                self.counts[i]
            },
            None => {
                proof {
                    lemma_map_of_absent(self.keys@, self.counts@, key@);
                }
                0
            },
        }
    }

    proof fn lemma_entries_bumped(pre: CountTable, post: CountTable, i: int, k: Seq<char>)
        requires
            pre.wf(),
            0 <= i < pre.keys@.len(),
            pre.keys@[i]@ == k,
            post.keys@ == pre.keys@,
            post.counts@.len() == pre.counts@.len(),
            forall|j: int| 0 <= j < post.counts@.len() && j != i ==> post.counts@[j]
                == pre.counts@[j],
            post.counts@[i] == pre.counts@[i] + 1,
        ensures
            post.entries().len() == pre.entries().len(),
            forall|j: int|
                0 <= j < pre.entries().len() ==> #[trigger] post.entries()[j] == (
                if pre.entries()[j].0 == k {
                    (k, pre.entries()[j].1 + 1)
                } else {
                    pre.entries()[j]
                }),
    {
        assert forall|j: int| 0 <= j < pre.entries().len() implies #[trigger] post.entries()[j]
            == (if pre.entries()[j].0 == k {
            (k, pre.entries()[j].1 + 1)
        } else {
            pre.entries()[j]
        }) by {
            if j == i {
                assert(pre.entries()[j].0 == k);
            } else {
                if pre.keys@[j]@ == k {
                    if j < i {
                        assert(pre.keys@[j]@ != pre.keys@[i]@);
                    } else {
                        assert(pre.keys@[i]@ != pre.keys@[j]@);
                    }
                    assert(false);
                }
            }
        }
    }

    proof fn lemma_entries_pushed(pre: CountTable, post: CountTable, k: Seq<char>, v: i64)
        requires
            pre.keys@.len() == pre.counts@.len(),
            post.keys@.len() == pre.keys@.len() + 1,
            post.counts@.len() == post.keys@.len(),
            forall|j: int| 0 <= j < pre.keys@.len() ==> #[trigger] post.keys@[j] == pre.keys@[j],
            forall|j: int| 0 <= j < pre.counts@.len() ==> #[trigger] post.counts@[j]
                == pre.counts@[j],
            post.keys@.last()@ == k,
            post.counts@.last() == v,
        ensures
            post.entries() == pre.entries().push((k, v as int)),
    {
        assert(post.entries() =~= pre.entries().push((k, v as int)));
    }

    /// Adds one to `key`'s counter, creating it at zero first when the
    /// key is new. An existing key keeps its place among the entries;
    /// a new one is appended with count one.
    pub fn bump(&mut self, key: &str)
        requires
            old(self).wf(),
            old(self)@.contains_key(key@) ==> old(self)@[key@] < i64::MAX,
        ensures
            final(self).wf(),
            final(self)@ == old(self)@.insert(
                key@,
                (if old(self)@.contains_key(key@) {
                    old(self)@[key@] + 1
                } else {
                    1
                }),
            ),
            final(self).entries().len() == (if old(self)@.contains_key(key@) {
                old(self).entries().len() as int
            } else {
                old(self).entries().len() as int + 1
            }),
            forall|i: int|
                0 <= i < old(self).entries().len() ==> #[trigger] final(self).entries()[i] == (
                if old(self).entries()[i].0 == key@ {
                    (key@, old(self).entries()[i].1 + 1)
                } else {
                    old(self).entries()[i]
                }),
            !old(self)@.contains_key(key@) ==> final(self).entries() == old(self).entries().push(
                (key@, 1int),
            ),
    {
        let k = String::from_str(key);
        match self.find(&k) {
            Some(i) => {
                proof {
                    lemma_map_of_index(self.keys@, self.counts@, i as int);
                }
                let c = self.counts[i];
                self.counts[i] = c + 1;
                proof {
                    lemma_map_of_update(self.keys@, old(self).counts@, i as int, (c + 1) as i64);
                    Self::lemma_entries_bumped(*old(self), *self, i as int, key@);
                }
            },
            None => {
                proof {
                    lemma_map_of_absent(self.keys@, self.counts@, key@);
                }
                self.keys.push(k);
                self.counts.push(1);
                proof {
                    assert(self.keys@.drop_last() =~= old(self).keys@);
                    assert(self.counts@.drop_last() =~= old(self).counts@);
                    assert forall|i: int, j: int|
                        #![trigger self.keys@[i], self.keys@[j]]
                        0 <= i < j < self.keys@.len() implies self.keys@[i]@ != self.keys@[j]@ by {
                        if j < self.keys@.len() - 1 {
                            assert(old(self).keys@[i] == self.keys@[i]);
                            assert(old(self).keys@[j] == self.keys@[j]);
                        } else {
                            assert(old(self).keys@[i] == self.keys@[i]);
                        }
                    }
                    Self::lemma_entries_pushed(*old(self), *self, key@, 1);
                }
            },
        }
    }

    /// Registers `key` with a zero counter when it is new; an existing
    /// counter and its place among the entries are kept.
    pub fn insert_zero(&mut self, key: &str)
        requires
            old(self).wf(),
        ensures
            final(self).wf(),
            final(self)@ == (if old(self)@.contains_key(key@) {
                old(self)@
            } else {
                old(self)@.insert(key@, 0)
            }),
            final(self).entries() == (if old(self)@.contains_key(key@) {
                old(self).entries()
            } else {
                old(self).entries().push((key@, 0int))
            }),
    {
        let k = String::from_str(key);
        match self.find(&k) {
            Some(i) => {
                proof {
                    lemma_map_of_index(self.keys@, self.counts@, i as int);
                }
            },
            None => {
                proof {
                    lemma_map_of_absent(self.keys@, self.counts@, key@);
                }
                self.keys.push(k);
                self.counts.push(0);
                proof {
                    assert(self.keys@.drop_last() =~= old(self).keys@);
                    assert(self.counts@.drop_last() =~= old(self).counts@);
                    assert forall|i: int, j: int|
                        #![trigger self.keys@[i], self.keys@[j]]
                        0 <= i < j < self.keys@.len() implies self.keys@[i]@ != self.keys@[j]@ by {
                        if j < self.keys@.len() - 1 {
                            assert(old(self).keys@[i] == self.keys@[i]);
                            assert(old(self).keys@[j] == self.keys@[j]);
                        } else {
                            assert(old(self).keys@[i] == self.keys@[i]);
                        }
                    }
                    Self::lemma_entries_pushed(*old(self), *self, key@, 0);
                }
            },
        }
    }

    /// Adds one to `key`'s counter when it is present and reports
    /// whether it was; an absent key changes nothing. An existing key
    /// keeps its place among the entries.
    pub fn bump_existing(&mut self, key: &str) -> (found: bool)
        requires
            old(self).wf(),
            old(self)@.contains_key(key@) ==> old(self)@[key@] < i64::MAX,
        ensures
            final(self).wf(),
            found == old(self)@.contains_key(key@),
            final(self)@ == (if old(self)@.contains_key(key@) {
                old(self)@.insert(key@, old(self)@[key@] + 1)
            } else {
                old(self)@
            }),
            final(self).entries().len() == old(self).entries().len(),
            forall|i: int|
                0 <= i < old(self).entries().len() ==> #[trigger] final(self).entries()[i] == (
                if old(self)@.contains_key(key@) && old(self).entries()[i].0 == key@ {
                    (key@, old(self).entries()[i].1 + 1)
                } else {
                    old(self).entries()[i]
                }),
    {
        let k = String::from_str(key);
        match self.find(&k) {
            Some(i) => {
                proof {
                    lemma_map_of_index(self.keys@, self.counts@, i as int);
                }
                let c = self.counts[i];
                self.counts[i] = c + 1;
                proof {
                    lemma_map_of_update(self.keys@, old(self).counts@, i as int, (c + 1) as i64);
                    Self::lemma_entries_bumped(*old(self), *self, i as int, key@);
                }
                true
            },
            None => {
                proof {
                    lemma_map_of_absent(self.keys@, self.counts@, key@);
                }
                false
            },
        }
    }
}

} // verus!
