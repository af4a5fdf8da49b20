//! A table that keeps one value for each key, in the order in which the keys came.
use vstd::prelude::*;

use crate::text::same_text;

verus! {

/// What rows of a table can be found by.
pub trait Key: View + Sized {
    /// Whether two keys are the same.
    fn is(&self, other: &Self) -> (same: bool)
        ensures
            same == (self@ == other@),
    ;
}

impl Key for String {
    fn is(&self, other: &String) -> (same: bool) {
        same_text(self.as_str(), other.as_str())
    }
}

impl Key for u128 {
    fn is(&self, other: &u128) -> (same: bool) {
        *self == *other
    }
}

/// The value in the last row with this key.
pub open spec fn lookup<K, V>(rows: Seq<(K, V)>, key: K) -> Option<V>
    decreases rows.len(),
{
    if rows.len() == 0 {
        None
    } else if rows.last().0 == key {
        Some(rows.last().1)
    } else {
        lookup(rows.drop_last(), key)
    }
}

/// The rows with this value for the key: in the place of the value that the key had, or in a
/// new row at the end.
pub open spec fn upserted<K, V>(rows: Seq<(K, V)>, key: K, value: V) -> Seq<(K, V)>
    decreases rows.len(),
{
    if rows.len() == 0 {
        seq![(key, value)]
    } else if rows.last().0 == key {
        rows.drop_last().push((key, value))
    } else {
        match lookup(rows.drop_last(), key) {
            Some(_) => upserted(rows.drop_last(), key, value).push(rows.last()),
            None => rows.push((key, value)),
        }
    }
}

/// Whether no two rows have the same key.
pub open spec fn keys_are_unique<K, V>(rows: Seq<(K, V)>) -> bool {
    forall|i: int, j: int|
        #![trigger rows[i], rows[j]]
        0 <= i < j < rows.len() ==> rows[i].0 != rows[j].0
}

#[derive(Debug)]
pub struct Table<K: Key, V> {
    rows: Vec<(K, V)>,
}

proof fn lemma_last_place<K, V>(rows: Seq<(K, V)>, key: K, i: int)
    requires
        0 <= i < rows.len(),
        rows[i].0 == key,
        forall|j: int| i < j < rows.len() ==> (#[trigger] rows[j]).0 != key,
    ensures
        lookup(rows, key) == Some(rows[i].1),
    decreases rows.len(),
{
    if i < rows.len() - 1 {
        assert(rows[rows.len() - 1].0 != key);
        lemma_last_place(rows.drop_last(), key, i);
    }
}

proof fn lemma_no_place<K, V>(rows: Seq<(K, V)>, key: K)
    requires
        forall|j: int| 0 <= j < rows.len() ==> (#[trigger] rows[j]).0 != key,
    ensures
        lookup(rows, key) is None,
    decreases rows.len(),
{
    if rows.len() > 0 {
        assert(rows[rows.len() - 1].0 != key);
        assert forall|j: int| 0 <= j < rows.drop_last().len() implies (
        #[trigger] rows.drop_last()[j]).0 != key by {
            assert(rows.drop_last()[j] == rows[j]);
        }
        lemma_no_place(rows.drop_last(), key);
    }
}

proof fn lemma_upserted_in_place<K, V>(rows: Seq<(K, V)>, key: K, value: V, i: int)
    requires
        0 <= i < rows.len(),
        rows[i].0 == key,
        forall|j: int| i < j < rows.len() ==> (#[trigger] rows[j]).0 != key,
    ensures
        upserted(rows, key, value) == rows.update(i, (key, value)),
    decreases rows.len(),
{
    if i < rows.len() - 1 {
        assert(rows[rows.len() - 1].0 != key);
        lemma_upserted_in_place(rows.drop_last(), key, value, i);
        lemma_last_place(rows.drop_last(), key, i);
        assert(rows.update(i, (key, value)) =~= rows.drop_last().update(i, (key, value)).push(
            rows.last(),
        ));
    } else {
        assert(rows.update(i, (key, value)) =~= rows.drop_last().push((key, value)));
    }
}

proof fn lemma_upserted_at_the_end<K, V>(rows: Seq<(K, V)>, key: K, value: V)
    requires
        forall|j: int| 0 <= j < rows.len() ==> (#[trigger] rows[j]).0 != key,
    ensures
        upserted(rows, key, value) == rows.push((key, value)),
{
    lemma_no_place(rows, key);
    if rows.len() > 0 {
        assert(rows[rows.len() - 1].0 != key);
        assert(lookup(rows.drop_last(), key) is None);
    } else {
        assert(rows.push((key, value)) =~= seq![(key, value)]);
    }
}

impl<K: Key, V> Table<K, V> {
    /// The rows, each with the view of its key.
    pub closed spec fn rows(self) -> Seq<(<K as View>::V, V)> {
        self.rows@.map_values(|row: (K, V)| (row.0@, row.1))
    }

    pub fn new() -> (table: Table<K, V>)
        ensures
            table.rows() == Seq::<(<K as View>::V, V)>::empty(),
    {
        let table = Table { rows: Vec::new() };
        assert(table.rows() =~= Seq::<(<K as View>::V, V)>::empty());
        table
    }

    pub fn len(&self) -> (count: usize)
        ensures
            count == self.rows().len(),
    {
        self.rows.len()
    }

    /// The place of the key's last row.
    fn place(&self, key: &K) -> (found: Option<usize>)
        ensures
            match found {
                Some(i) => i < self.rows@.len() && self.rows()[i as int].0 == key@ && forall|j: int|
                    i < j < self.rows().len() ==> (#[trigger] self.rows()[j]).0 != key@,
                None => forall|j: int|
                    0 <= j < self.rows().len() ==> (#[trigger] self.rows()[j]).0 != key@,
            },
    {
        let mut i: usize = self.rows.len();
        while i > 0
            invariant
                i <= self.rows@.len(),
                forall|j: int| i <= j < self.rows().len() ==> (#[trigger] self.rows()[j]).0 != key@,
            decreases i,
        {
            i = i - 1;
            if self.rows[i].0.is(key) {
                return Some(i);
            }
        }
        None
    }

    /// The value of a key.
    pub fn get(&self, key: &K) -> (value: Option<&V>)
        ensures
            match value {
                Some(value) => lookup(self.rows(), key@) == Some(*value),
                None => lookup(self.rows(), key@) is None,
            },
    {
        match self.place(key) {
            Some(i) => {
                proof {
                    lemma_last_place(self.rows(), key@, i as int);
                }
                Some(&self.rows[i].1)
            },
            None => {
                proof {
                    lemma_no_place(self.rows(), key@);
                }
                None
            },
        }
    }

    /// Gives a key its value.
    pub fn upsert(&mut self, key: K, value: V)
        ensures
            final(self).rows() == upserted(old(self).rows(), key@, value),
    {
        match self.place(&key) {
            Some(i) => {
                proof {
                    lemma_upserted_in_place(self.rows(), key@, value, i as int);
                }
                self.rows.set(i, (key, value));
                assert(self.rows() =~= old(self).rows().update(i as int, (key@, value)));
            },
            None => {
                proof {
                    lemma_upserted_at_the_end(self.rows(), key@, value);
                }
                self.rows.push((key, value));
                assert(self.rows() =~= old(self).rows().push((key@, value)));
            },
        }
    }

    /// The key of the row at a place.
    pub fn key_at(&self, i: usize) -> (key: &K)
        requires
            i < self.rows().len(),
        ensures
            key@ == self.rows()[i as int].0,
    {
        &self.rows[i].0
    }

    /// The value in one row.
    pub fn value_at(&self, i: usize) -> (value: &V)
        requires
            i < self.rows().len(),
        ensures
            *value == self.rows()[i as int].1,
    {
        &self.rows[i].1
    }

    /// Puts another value into one row.
    pub fn replace_value(&mut self, i: usize, value: V)
        requires
            i < old(self).rows().len(),
        ensures
            final(self).rows() == old(self).rows().update(
                i as int,
                (old(self).rows()[i as int].0, value),
            ),
    {
        let row = &mut self.rows[i];
        row.1 = value;
        assert(self.rows() =~= old(self).rows().update(
            i as int,
            (old(self).rows()[i as int].0, value),
        ));
    }
}

impl<K: Key, V> Default for Table<K, V> {
    fn default() -> (table: Table<K, V>)
        ensures
            table.rows() == Seq::<(<K as View>::V, V)>::empty(),
    {
        Table::new()
    }
}

/// What was written for a key is read for it, and what other keys have stays as it was.
pub proof fn upsert_is_read_back<K, V>(rows: Seq<(K, V)>, key: K, value: V, other: K)
    ensures
        lookup(upserted(rows, key, value), key) == Some(value),
        other != key ==> lookup(upserted(rows, key, value), other) == lookup(rows, other),
    decreases rows.len(),
{
    if rows.len() == 0 {
        assert(seq![(key, value)].drop_last() =~= rows);
    } else if rows.last().0 == key {
        assert(rows.drop_last().push((key, value)).drop_last() =~= rows.drop_last());
    } else {
        match lookup(rows.drop_last(), key) {
            Some(_) => {
                upsert_is_read_back(rows.drop_last(), key, value, other);
                assert(upserted(rows.drop_last(), key, value).push(rows.last()).drop_last()
                    =~= upserted(rows.drop_last(), key, value));
            },
            None => {
                assert(rows.push((key, value)).drop_last() =~= rows);
            },
        }
    }
}

/// Writing the same key twice leaves what the second write alone would have left.
pub proof fn last_write_counts<K, V>(rows: Seq<(K, V)>, key: K, first: V, second: V)
    ensures
        upserted(upserted(rows, key, first), key, second) == upserted(rows, key, second),
    decreases rows.len(),
{
    let once = upserted(rows, key, first);
    if rows.len() == 0 {
        assert(once.drop_last() =~= rows);
        assert(upserted(once, key, second) =~= seq![(key, second)]);
    } else if rows.last().0 == key {
        assert(once.drop_last() =~= rows.drop_last());
    } else {
        match lookup(rows.drop_last(), key) {
            Some(_) => {
                last_write_counts(rows.drop_last(), key, first, second);
                upsert_is_read_back(rows.drop_last(), key, first, key);
                assert(once.drop_last() =~= upserted(rows.drop_last(), key, first));
            },
            None => {
                assert(once.drop_last() =~= rows);
            },
        }
    }
}

/// Writing never gives two rows the same key, and the number of rows grows only for a new key.
pub proof fn upsert_keeps_keys_unique<K, V>(rows: Seq<(K, V)>, key: K, value: V)
    requires
        keys_are_unique(rows),
    ensures
        keys_are_unique(upserted(rows, key, value)),
        upserted(rows, key, value).len() == (if lookup(rows, key) is Some {
            rows.len()
        } else {
            rows.len() + 1
        }),
{
    if exists|i: int| 0 <= i < rows.len() && (#[trigger] rows[i]).0 == key {
        let i = choose|i: int| 0 <= i < rows.len() && (#[trigger] rows[i]).0 == key;
        assert forall|j: int| i < j < rows.len() implies (#[trigger] rows[j]).0 != key by {
            assert(rows[i].0 != rows[j].0);
        }
        lemma_upserted_in_place(rows, key, value, i);
        lemma_last_place(rows, key, i);
        let after = upserted(rows, key, value);
        assert forall|a: int, b: int|
            #![trigger after[a], after[b]]
            0 <= a < b < after.len() implies after[a].0 != after[b].0 by {
            assert(rows[a].0 != rows[b].0);
        }
    } else {
        lemma_upserted_at_the_end(rows, key, value);
        lemma_no_place(rows, key);
        let after = upserted(rows, key, value);
        assert forall|a: int, b: int|
            #![trigger after[a], after[b]]
            0 <= a < b < after.len() implies after[a].0 != after[b].0 by {
            assert(rows[a].0 != key);
            if b < rows.len() {
                assert(rows[a].0 != rows[b].0);
            }
        }
    }
}

} // verus!
