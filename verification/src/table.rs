//! An insertion-ordered association table with string keys.
//!
//! Configuration maps names — of indexes, schemas, tokenizers and sources —
//! to their definitions. The table keeps its entries in insertion order (the
//! order the orchestrator visits sources in) and `insert` replaces the value
//! of an existing key, so a name is never bound twice.

use vstd::prelude::*;

use crate::text::str_eq;

verus! {

/// The first binding of `k` among the entries, if any.
pub open spec fn table_lookup<K, V>(s: Seq<(K, V)>, k: K) -> Option<V>
    decreases s.len(),
{
    if s.len() == 0 {
        None
    } else if s[0].0 == k {
        Some(s[0].1)
    } else {
        table_lookup(s.drop_first(), k)
    }
}

/// A lookup ignores entries appended behind an existing binding.
pub proof fn lemma_lookup_push<K, V>(s: Seq<(K, V)>, p: (K, V), k: K)
    ensures
        table_lookup(s.push(p), k) == (if table_lookup(s, k) is Some {
            table_lookup(s, k)
        } else if p.0 == k {
            Some(p.1)
        } else {
            None::<V>
        }),
    decreases s.len(),
{
    reveal_with_fuel(table_lookup, 2);
    if s.len() == 0 {
        assert(s.push(p)[0] == p);
        assert(s.push(p).drop_first() =~= Seq::<(K, V)>::empty());
    } else {
        lemma_lookup_push(s.drop_first(), p, k);
        assert(s.push(p).drop_first() =~= s.drop_first().push(p));
    }
}

/// Replacing the first binding of a key changes that key's lookup and no
/// other.
pub proof fn lemma_lookup_update<K, V>(s: Seq<(K, V)>, i: int, p: (K, V), k: K)
    requires
        0 <= i < s.len(),
        s[i].0 == p.0,
        forall|j: int| 0 <= j < i ==> (#[trigger] s[j]).0 != p.0,
    ensures
        table_lookup(s.update(i, p), k) == (if k == p.0 {
            Some(p.1)
        } else {
            table_lookup(s, k)
        }),
    decreases i,
{
    if i == 0 {
        assert(s.update(0, p).drop_first() =~= s.drop_first());
    } else {
        lemma_lookup_update(s.drop_first(), i - 1, p, k);
        assert(s.update(i, p).drop_first() =~= s.drop_first().update(i - 1, p));
        assert(s.update(i, p)[0] == s[0]);
    }
}

/// An insertion-ordered table from string names to values.
#[derive(Debug)]
pub struct Table<V> {
    entries: Vec<(String, V)>,
}

impl<V> Table<V> {
    /// The entries, as (characters, value) pairs in insertion order.
    pub closed spec fn entries_view(self) -> Seq<(Seq<char>, V)> {
        self.entries@.map_values(|p: (String, V)| (p.0@, p.1))
    }

    /// The value bound to `k`, if any.
    pub open spec fn spec_get(self, k: Seq<char>) -> Option<V> {
        table_lookup(self.entries_view(), k)
    }

    /// Whether `k` is bound.
    pub open spec fn contains_name(self, k: Seq<char>) -> bool {
        self.spec_get(k) is Some
    }

    /// An empty table.
    pub fn new() -> (t: Table<V>)
        ensures
            t.entries_view() =~= Seq::<(Seq<char>, V)>::empty(),
    {
        Table { entries: Vec::new() }
    }

    /// How many names are bound.
    pub fn len(&self) -> (n: usize)
        ensures
            n == self.entries_view().len(),
    {
        self.entries.len()
    }

    /// The name of the `i`-th entry in insertion order.
    pub fn key_at(&self, i: usize) -> (k: &String)
        requires
            i < self.entries_view().len(),
        ensures
            k@ == self.entries_view()[i as int].0,
    {
        &self.entries[i].0
    }

    /// The value of the `i`-th entry in insertion order.
    pub fn value_at(&self, i: usize) -> (v: &V)
        requires
            i < self.entries_view().len(),
        ensures
            *v == self.entries_view()[i as int].1,
    {
        &self.entries[i].1
    }

    /// The value bound to `name`, if any.
    pub fn get(&self, name: &str) -> (r: Option<&V>)
        ensures
            match r {
                Some(v) => self.spec_get(name@) == Some(*v),
                None => self.spec_get(name@) is None,
            },
    {
        let n = self.entries.len();
        let mut i: usize = 0;
        proof {
            assert(self.entries_view().skip(0) =~= self.entries_view());
        }
        while i < n
            invariant
                i <= n,
                n == self.entries@.len(),
                table_lookup(self.entries_view(), name@) == table_lookup(
                    self.entries_view().skip(i as int),
                    name@,
                ),
            decreases n - i,
        {
            if str_eq(self.entries[i].0.as_str(), name) {
                proof {
                    assert(self.entries_view().skip(i as int)[0] == self.entries_view()[i as int]);
                }
                return Some(&self.entries[i].1);
            }
            proof {
                assert(self.entries_view().skip(i as int).drop_first() =~= self.entries_view().skip(
                    i as int + 1,
                ));
            }
            i += 1;
        }
        proof {
            assert(self.entries_view().skip(n as int) =~= Seq::<(Seq<char>, V)>::empty());
        }
        None
    }

    /// Binds `name` to `value`, replacing any previous binding of the name
    /// and leaving every other binding as it was.
    pub fn insert(&mut self, name: String, value: V)
        ensures
            final(self).spec_get(name@) == Some(value),
            forall|k: Seq<char>|
                k != name@ ==> #[trigger] final(self).spec_get(k) == old(self).spec_get(k),
    {
        let n = self.entries.len();
        let mut i: usize = 0;
        while i < n
            invariant
                i <= n,
                n == self.entries@.len(),
                forall|j: int| 0 <= j < i ==> (#[trigger] self.entries_view()[j]).0 != name@,
                self == old(self),
            decreases n - i,
        {
            if str_eq(self.entries[i].0.as_str(), name.as_str()) {
                proof {
                    lemma_lookup_update(
                        self.entries_view(),
                        i as int,
                        (name@, value),
                        name@,
                    );
                    assert forall|k: Seq<char>| k != name@ implies table_lookup(
                        self.entries_view().update(i as int, (name@, value)),
                        k,
                    ) == table_lookup(self.entries_view(), k) by {
                        lemma_lookup_update(self.entries_view(), i as int, (name@, value), k);
                    }
                }
                self.entries.set(i, (name, value));
                proof {
                    assert(self.entries_view() =~= old(self).entries_view().update(
                        i as int,
                        (name@, value),
                    ));
                }
                return ;
            }
            i += 1;
        }
        proof {
            lemma_lookup_push(self.entries_view(), (name@, value), name@);
            assert(table_lookup(self.entries_view(), name@) is None) by {
                lemma_lookup_none_when_no_key(self.entries_view(), name@);
            }
            assert forall|k: Seq<char>| k != name@ implies table_lookup(
                self.entries_view().push((name@, value)),
                k,
            ) == table_lookup(self.entries_view(), k) by {
                lemma_lookup_push(self.entries_view(), (name@, value), k);
            }
        }
        self.entries.push((name, value));
        proof {
            assert(self.entries_view() =~= old(self).entries_view().push((name@, value)));
        }
    }
}

/// A key bound by no entry looks up to nothing.
pub proof fn lemma_lookup_none_when_no_key<K, V>(s: Seq<(K, V)>, k: K)
    requires
        forall|j: int| 0 <= j < s.len() ==> (#[trigger] s[j]).0 != k,
    ensures
        table_lookup(s, k) is None,
    decreases s.len(),
{
    if s.len() > 0 {
        lemma_lookup_none_when_no_key(s.drop_first(), k);
    }
}

} // verus!
