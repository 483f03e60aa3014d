//! A table from names to values, kept as a list of entries.
//!
//! The table stands for a map from texts to values: an entry further back
//! in the list overrides an earlier one of the same name, and writing a
//! name that is present changes its last entry in place.
//!
//! The maps of std are no help here: of a `HashMap` or `BTreeMap` with
//! `String` keys, vstd says nothing that can be used, not even that a key
//! just inserted is present, because nothing relates the equality and the
//! hashing of two strings to their texts. The names of a scope, a frame
//! or a class are few, so the list is searched.

use vstd::prelude::*;

verus! {

#[derive(Debug)]
pub struct Table<V> {
    pub entries: Vec<(String, V)>,
}

/// The map of the first `n` entries.
pub open spec fn entries<V>(list: Seq<(String, V)>, n: nat) -> Map<Seq<char>, V>
    decreases n,
{
    if n == 0 {
        Map::empty()
    } else {
        entries(list, (n - 1) as nat).insert(list[n - 1].0@, list[n - 1].1)
    }
}

/// Whether none of the entries `from..to` has the name `key`.
pub open spec fn absent<V>(list: Seq<(String, V)>, key: Seq<char>, from: int, to: int) -> bool {
    forall|i: int| from <= i < to ==> (#[trigger] list[i]).0@ != key
}

/// Entries behind the first `n` that do not have the name `key` do not
/// change what the table holds for `key`.
pub proof fn entries_skip<V>(list: Seq<(String, V)>, key: Seq<char>, n: nat, m: nat)
    requires
        n <= m <= list.len(),
        absent(list, key, n as int, m as int),
    ensures
        entries(list, m).dom().contains(key) == entries(list, n).dom().contains(key),
        entries(list, m).dom().contains(key) ==> entries(list, m)[key] == entries(list, n)[key],
    decreases m - n,
{
    if n < m {
        assert(list[m - 1].0@ != key);
        entries_skip(list, key, n, (m - 1) as nat);
    }
}

/// The map of a table depends on the names and values of its entries
/// alone.
pub proof fn entries_agree<V>(a: Seq<(String, V)>, b: Seq<(String, V)>, n: nat)
    requires
        n <= a.len(),
        n <= b.len(),
        forall|i: int| 0 <= i < n ==> (#[trigger] a[i]).0@ == b[i].0@ && a[i].1 == b[i].1,
    ensures
        entries(a, n) == entries(b, n),
    decreases n,
{
    if n > 0 {
        entries_agree(a, b, (n - 1) as nat);
    }
}

/// Replacing the last entry named `key` by one of the same name writes
/// `key`.
pub proof fn entries_update<V>(list: Seq<(String, V)>, at: int, entry: (String, V), n: nat)
    requires
        0 <= at < n <= list.len(),
        entry.0@ == list[at].0@,
        absent(list, entry.0@, at + 1, n as int),
    ensures
        entries(list.update(at, entry), n) == entries(list, n).insert(entry.0@, entry.1),
    decreases n,
{
    let updated = list.update(at, entry);
    if n - 1 == at {
        entries_agree(list, updated, (n - 1) as nat);
        assert(entries(updated, n) =~= entries(list, n).insert(entry.0@, entry.1));
    } else {
        entries_update(list, at, entry, (n - 1) as nat);
        assert(list[n - 1].0@ != entry.0@);
        assert(entries(updated, n) =~= entries(list, n).insert(entry.0@, entry.1));
    }
}

impl<V> View for Table<V> {
    type V = Map<Seq<char>, V>;

    open spec fn view(&self) -> Map<Seq<char>, V> {
        entries(self.entries@, self.entries@.len())
    }
}

impl<V> Table<V> {
    pub fn new() -> (table: Table<V>)
        ensures
            table@ == Map::<Seq<char>, V>::empty(),
    {
        Table { entries: Vec::new() }
    }

    /// The place of the last entry named `key`.
    fn find(&self, key: &String) -> (at: Option<usize>)
        ensures
            match at {
                Some(i) => i < self.entries@.len() && self.entries@[i as int].0@ == key@ && absent(
                    self.entries@,
                    key@,
                    i + 1,
                    self.entries@.len() as int,
                ) && self@.dom().contains(key@) && self@[key@] == self.entries@[i as int].1,
                None => !self@.dom().contains(key@),
            },
    {
        let mut i: usize = self.entries.len();
        while i > 0
            invariant
                i <= self.entries@.len(),
                absent(self.entries@, key@, i as int, self.entries@.len() as int),
            decreases i,
        {
            i -= 1;
            if self.entries[i].0 == *key {
                proof {
                    entries_skip(self.entries@, key@, (i + 1) as nat, self.entries@.len());
                }
                return Some(i);
            }
        }
        proof {
            entries_skip(self.entries@, key@, 0, self.entries@.len());
        }
        None
    }

    pub fn contains_key(&self, key: &String) -> (b: bool)
        ensures
            b == self@.dom().contains(key@),
    {
        self.find(key).is_some()
    }

    /// The value of `key`, if the table has one.
    pub fn get(&self, key: &String) -> (value: Option<&V>)
        ensures
            match value {
                Some(v) => self@.dom().contains(key@) && self@[key@] == *v,
                None => !self@.dom().contains(key@),
            },
    {
        match self.find(key) {
            Some(i) => Some(&self.entries[i].1),
            None => None,
        }
    }

    /// Writes `value` for `key`, whether or not the table has the name.
    pub fn insert(&mut self, key: String, value: V)
        ensures
            final(self)@ == old(self)@.insert(key@, value),
    {
        match self.find(&key) {
            Some(i) => {
                proof {
                    entries_update(self.entries@, i as int, (key, value), self.entries@.len());
                }
                self.entries.set(i, (key, value));
            },
            None => {
                proof {
                    entries_agree(
                        self.entries@,
                        self.entries@.push((key, value)),
                        self.entries@.len(),
                    );
                }
                self.entries.push((key, value));
            },
        }
    }
}

} // verus!
