//! A small table from string keys to values that keeps the order in which the
//! keys were first entered.

use vstd::prelude::*;
use crate::text::{push_str, str_eq};

verus! {

/// One row of a table.
pub struct Row<V> {
    pub key: String,
    pub value: V,
}

/// A table from string keys to values. No key occurs twice; rows stay in the
/// order in which their keys were first entered.
pub struct Table<V> {
    rows: Vec<Row<V>>,
}

/// Whether no key occurs twice among `rows`.
pub open spec fn keys_distinct<V>(rows: Seq<(Seq<char>, V)>) -> bool {
    forall|i: int, j: int| 0 <= i < j < rows.len() ==> rows[i].0 != rows[j].0
}

/// Whether some row of `rows` has the key `key`.
pub open spec fn has_key<V>(rows: Seq<(Seq<char>, V)>, key: Seq<char>) -> bool {
    exists|i: int| 0 <= i < rows.len() && rows[i].0 == key
}

/// The index of the first row of `rows` with the key `key`; the length of
/// `rows` if there is none.
pub open spec fn index_of<V>(rows: Seq<(Seq<char>, V)>, key: Seq<char>) -> int
    decreases rows.len(),
{
    if rows.len() == 0 {
        0
    } else if rows[0].0 == key {
        0
    } else {
        1 + index_of(rows.drop_first(), key)
    }
}

/// The value under `key`, if any.
pub open spec fn lookup<V>(rows: Seq<(Seq<char>, V)>, key: Seq<char>) -> Option<V> {
    if has_key(rows, key) {
        Some(rows[index_of(rows, key)].1)
    } else {
        None
    }
}

/// `rows` with `value` under `key`: in place where the key is present, as a
/// new last row where it is not.
pub open spec fn with_entry<V>(rows: Seq<(Seq<char>, V)>, key: Seq<char>, value: V) -> Seq<
    (Seq<char>, V),
> {
    if has_key(rows, key) {
        rows.update(index_of(rows, key), (key, value))
    } else {
        rows.push((key, value))
    }
}

/// `rows` without the row of `key`.
pub open spec fn without_key<V>(rows: Seq<(Seq<char>, V)>, key: Seq<char>) -> Seq<
    (Seq<char>, V),
> {
    if has_key(rows, key) {
        rows.remove(index_of(rows, key))
    } else {
        rows
    }
}

/// `index_of` finds the row of a key that is present, and returns the length
/// for one that is not.
pub proof fn lemma_index_of<V>(rows: Seq<(Seq<char>, V)>, key: Seq<char>)
    ensures
        0 <= index_of(rows, key) <= rows.len(),
        has_key(rows, key) <==> index_of(rows, key) < rows.len(),
        has_key(rows, key) ==> rows[index_of(rows, key)].0 == key,
        forall|j: int| 0 <= j < index_of(rows, key) ==> rows[j].0 != key,
    decreases rows.len(),
{
    if rows.len() == 0 {
    } else if rows[0].0 == key {
    } else {
        let rest = rows.drop_first();
        lemma_index_of(rest, key);
        if has_key(rows, key) {
            let i = choose|i: int| 0 <= i < rows.len() && rows[i].0 == key;
            assert(rest[i - 1].0 == key);
        }
        if has_key(rest, key) {
            let i = choose|i: int| 0 <= i < rest.len() && rest[i].0 == key;
            assert(rows[i + 1].0 == key);
        }
        assert forall|j: int| 0 <= j < index_of(rows, key) implies rows[j].0 != key by {
            if j > 0 {
                assert(rest[j - 1].0 != key);
            }
        }
    }
}

/// `rows` with each value replaced by what `f` makes of it.
pub open spec fn map_rows<V, W>(rows: Seq<(Seq<char>, V)>, f: spec_fn(V) -> W) -> Seq<
    (Seq<char>, W),
> {
    Seq::new(rows.len(), |i: int| (rows[i].0, f(rows[i].1)))
}

/// Mapping the values changes nothing about the keys: which are present,
/// where they stand, and whether they are distinct.
pub proof fn lemma_map_rows_keys<V, W>(rows: Seq<(Seq<char>, V)>, f: spec_fn(V) -> W, key: Seq<char>)
    ensures
        has_key(map_rows(rows, f), key) == has_key(rows, key),
        index_of(map_rows(rows, f), key) == index_of(rows, key),
        keys_distinct(map_rows(rows, f)) == keys_distinct(rows),
    decreases rows.len(),
{
    let mapped = map_rows(rows, f);
    if has_key(rows, key) {
        let i = choose|i: int| 0 <= i < rows.len() && rows[i].0 == key;
        assert(mapped[i].0 == key);
    }
    if has_key(mapped, key) {
        let i = choose|i: int| 0 <= i < mapped.len() && mapped[i].0 == key;
        assert(rows[i].0 == key);
    }
    if rows.len() > 0 {
        assert(mapped.drop_first() =~= map_rows(rows.drop_first(), f));
        lemma_map_rows_keys(rows.drop_first(), f, key);
    }
    if keys_distinct(rows) {
        assert forall|i: int, j: int| 0 <= i < j < mapped.len() implies mapped[i].0
            != mapped[j].0 by {
            assert(rows[i].0 != rows[j].0);
        }
    }
    if keys_distinct(mapped) {
        assert forall|i: int, j: int| 0 <= i < j < rows.len() implies rows[i].0 != rows[j].0 by {
            assert(mapped[i].0 != mapped[j].0);
        }
    }
}

/// Mapping the values goes through `with_entry`, `without_key` and `lookup`.
pub proof fn lemma_map_rows_ops<V, W>(
    rows: Seq<(Seq<char>, V)>,
    f: spec_fn(V) -> W,
    key: Seq<char>,
    value: V,
)
    ensures
        map_rows(with_entry(rows, key, value), f) == with_entry(map_rows(rows, f), key, f(value)),
        map_rows(without_key(rows, key), f) == without_key(map_rows(rows, f), key),
        lookup(map_rows(rows, f), key) == match lookup(rows, key) {
            Some(v) => Some(f(v)),
            None => None,
        },
{
    lemma_map_rows_keys(rows, f, key);
    lemma_index_of(rows, key);
    assert(map_rows(with_entry(rows, key, value), f) =~= with_entry(
        map_rows(rows, f),
        key,
        f(value),
    ));
    assert(map_rows(without_key(rows, key), f) =~= without_key(map_rows(rows, f), key));
}

/// `with_entry` and `without_key` keep the keys distinct.
pub proof fn lemma_ops_distinct<V>(rows: Seq<(Seq<char>, V)>, key: Seq<char>, value: V)
    requires
        keys_distinct(rows),
    ensures
        keys_distinct(with_entry(rows, key, value)),
        keys_distinct(without_key(rows, key)),
        !has_key(without_key(rows, key), key),
        has_key(with_entry(rows, key, value), key),
        lookup(with_entry(rows, key, value), key) == Some(value),
{
    lemma_index_of(rows, key);
    let w = with_entry(rows, key, value);
    let i = index_of(rows, key);
    if has_key(rows, key) {
        assert(w[i].0 == key);
        let r = rows.remove(i);
        assert forall|a: int, b: int| 0 <= a < b < r.len() implies r[a].0 != r[b].0 by {
            let a0 = if a < i { a } else { a + 1 };
            let b0 = if b < i { b } else { b + 1 };
            assert(rows[a0].0 != rows[b0].0);
        }
        assert forall|a: int| 0 <= a < r.len() implies r[a].0 != key by {
            let a0 = if a < i { a } else { a + 1 };
            assert(rows[a0].0 != rows[i].0);
        }
    } else {
        assert(w[rows.len() as int].0 == key);
    }
    lemma_index_of(w, key);
    assert(w[index_of(w, key)].0 == key);
}

/// A new last row changes nothing for a key that was present, and is found
/// under its own key where that key was not present.
pub proof fn lemma_push_lookup<V>(rows: Seq<(Seq<char>, V)>, row: (Seq<char>, V), key: Seq<char>)
    ensures
        has_key(rows, key) ==> has_key(rows.push(row), key) && lookup(rows.push(row), key)
            == lookup(rows, key),
        !has_key(rows, key) && row.0 == key ==> lookup(rows.push(row), key) == Some(row.1),
        !has_key(rows, key) && row.0 != key ==> !has_key(rows.push(row), key),
        has_key(rows.push(row), key) ==> has_key(rows, key) || row.0 == key,
{
    let next = rows.push(row);
    lemma_index_of(rows, key);
    lemma_index_of(next, key);
    if has_key(rows, key) {
        let i = index_of(rows, key);
        assert(next[i].0 == key);
    }
    if row.0 == key {
        assert(next[rows.len() as int].0 == key);
    }
    if has_key(next, key) {
        let j = choose|j: int| 0 <= j < next.len() && next[j].0 == key;
        if j < rows.len() {
            assert(rows[j].0 == key);
        }
    }
}

/// Taking one key away leaves all other keys where they were present.
pub proof fn lemma_without_key_others<V>(rows: Seq<(Seq<char>, V)>, key: Seq<char>, other: Seq<char>)
    requires
        keys_distinct(rows),
    ensures
        has_key(without_key(rows, key), other) <==> has_key(rows, other) && other != key,
{
    lemma_index_of(rows, key);
    if has_key(rows, key) {
        let i = index_of(rows, key);
        let r = rows.remove(i);
        if has_key(r, other) {
            let a = choose|a: int| 0 <= a < r.len() && r[a].0 == other;
            let a0 = if a < i { a } else { a + 1 };
            assert(rows[a0].0 == other);
            assert(rows[a0].0 != rows[i].0);
        }
        if has_key(rows, other) && other != key {
            let b = choose|b: int| 0 <= b < rows.len() && rows[b].0 == other;
            let b0 = if b < i { b } else { b - 1 };
            assert(r[b0].0 == other);
        }
    }
}

/// Two lists with the same keys at the same places have the same keys
/// present, at the same places.
pub proof fn lemma_same_keys<V, W>(a: Seq<(Seq<char>, V)>, b: Seq<(Seq<char>, W)>, key: Seq<char>)
    requires
        a.len() == b.len(),
        forall|i: int| 0 <= i < a.len() ==> a[i].0 == b[i].0,
    ensures
        has_key(a, key) == has_key(b, key),
        index_of(a, key) == index_of(b, key),
    decreases a.len(),
{
    if has_key(a, key) {
        let i = choose|i: int| 0 <= i < a.len() && a[i].0 == key;
        assert(b[i].0 == key);
    }
    if has_key(b, key) {
        let i = choose|i: int| 0 <= i < b.len() && b[i].0 == key;
        assert(a[i].0 == key);
    }
    if a.len() > 0 {
        assert(a[0].0 == b[0].0);
        assert forall|i: int| 0 <= i < a.drop_first().len() implies a.drop_first()[i].0
            == b.drop_first()[i].0 by {
            assert(a[i + 1].0 == b[i + 1].0);
        }
        lemma_same_keys(a.drop_first(), b.drop_first(), key);
    }
}

/// After `with_entry` the key is present, and every other key is present
/// where it was before.
pub proof fn lemma_with_entry_keys<V>(
    rows: Seq<(Seq<char>, V)>,
    key: Seq<char>,
    value: V,
    other: Seq<char>,
)
    ensures
        has_key(with_entry(rows, key, value), other) <==> has_key(rows, other) || other == key,
{
    lemma_index_of(rows, key);
    if has_key(rows, key) {
        let next = rows.update(index_of(rows, key), (key, value));
        assert forall|i: int| 0 <= i < rows.len() implies rows[i].0 == next[i].0 by {}
        lemma_same_keys(rows, next, other);
    } else {
        lemma_push_lookup(rows, (key, value), other);
    }
}

impl<V> Table<V> {
    /// Whether no key occurs twice. Every table that this module hands out
    /// is well formed, and every operation keeps it so.
    pub open spec fn wf(&self) -> bool {
        keys_distinct(self.rows())
    }

    /// The rows of the table, in order, each key by its characters.
    pub closed spec fn rows(&self) -> Seq<(Seq<char>, V)> {
        Seq::new(self.rows.len() as nat, |i: int| (self.rows[i].key@, self.rows[i].value))
    }

    /// An empty table.
    pub fn new() -> (t: Self)
        ensures
            t.rows() == Seq::<(Seq<char>, V)>::empty(),
            t.wf(),
    {
        let t = Table { rows: Vec::new() };
        assert(t.rows() =~= Seq::<(Seq<char>, V)>::empty());
        t
    }

    /// The number of rows.
    pub fn len(&self) -> (n: usize)
        ensures
            n == self.rows().len(),
    {
        self.rows.len()
    }

    /// The index of the row of `key`, if there is one.
    pub fn position(&self, key: &str) -> (at: Option<usize>)
        ensures
            at is Some <==> has_key(self.rows(), key@),
            at is Some ==> at->0 == index_of(self.rows(), key@) && at->0 < self.rows().len(),
    {
        proof {
            lemma_index_of(self.rows(), key@);
        }
        let mut i: usize = 0;
        while i < self.rows.len()
            invariant
                i <= self.rows.len(),
                forall|j: int| 0 <= j < i ==> self.rows()[j].0 != key@,
            decreases self.rows.len() - i,
        {
            if str_eq(self.rows[i].key.as_str(), key) {
                proof {
                    assert(self.rows()[i as int].0 == key@);
                    lemma_index_of(self.rows(), key@);
                }
                return Some(i);
            }
            i += 1;
        }
        None
    }

    /// Whether `key` has a row.
    pub fn contains_key(&self, key: &str) -> (found: bool)
        ensures
            found == has_key(self.rows(), key@),
    {
        self.position(key).is_some()
    }

    /// The key of row `i`.
    pub fn key(&self, i: usize) -> (k: &String)
        requires
            i < self.rows().len(),
        ensures
            k@ == self.rows()[i as int].0,
    {
        &self.rows[i].key
    }

    /// The value of row `i`.
    pub fn value(&self, i: usize) -> (v: &V)
        requires
            i < self.rows().len(),
        ensures
            *v == self.rows()[i as int].1,
    {
        &self.rows[i].value
    }

    /// The value under `key`, if any.
    pub fn get(&self, key: &str) -> (v: Option<&V>)
        ensures
            match v {
                Some(r) => lookup(self.rows(), key@) == Some(*r),
                None => lookup(self.rows(), key@) is None,
            },
    {
        match self.position(key) {
            Some(i) => Some(&self.rows[i].value),
            None => None,
        }
    }

    /// Replaces the value of row `i`.
    pub fn set_value(&mut self, i: usize, value: V)
        requires
            i < old(self).rows().len(),
        ensures
            final(self).rows() == old(self).rows().update(
                i as int,
                (old(self).rows()[i as int].0, value),
            ),
            old(self).wf() ==> final(self).wf(),
    {
        self.rows[i].value = value;
        assert(self.rows() =~= old(self).rows().update(
            i as int,
            (old(self).rows()[i as int].0, value),
        ));
    }

    /// Replaces the value of row `i` and returns the old one.
    pub fn replace(&mut self, i: usize, value: V) -> (was: V)
        requires
            i < old(self).rows().len(),
        ensures
            final(self).rows() == old(self).rows().update(
                i as int,
                (old(self).rows()[i as int].0, value),
            ),
            was == old(self).rows()[i as int].1,
            old(self).wf() ==> final(self).wf(),
    {
        let row = self.rows.remove(i);
        self.rows.insert(i, Row { key: row.key, value });
        assert(self.rows() =~= old(self).rows().update(
            i as int,
            (old(self).rows()[i as int].0, value),
        ));
        row.value
    }

    /// Puts `value` under `key`: over the old value where the key is present,
    /// as a new last row where it is not.
    pub fn put(&mut self, key: &str, value: V)
        ensures
            final(self).rows() == with_entry(old(self).rows(), key@, value),
            old(self).wf() ==> final(self).wf(),
    {
        proof {
            lemma_index_of(self.rows(), key@);
        }
        match self.position(key) {
            Some(i) => {
                self.set_value(i, value);
            },
            None => {
                let mut k: String = String::new();
                push_str(&mut k, key);
                assert(k@ =~= key@);
                self.rows.push(Row { key: k, value });
                assert(self.rows() =~= old(self).rows().push((key@, value)));
            },
        }
    }

    /// Adds a last row without looking for the key: for copying a table row by row.
    pub(crate) fn push_row(&mut self, key: &str, value: V)
        ensures
            final(self).rows() == old(self).rows().push((key@, value)),
            old(self).wf() && !has_key(old(self).rows(), key@) ==> final(self).wf(),
    {
        let mut k: String = String::new();
        push_str(&mut k, key);
        assert(k@ =~= key@);
        self.rows.push(Row { key: k, value });
        assert(self.rows() =~= old(self).rows().push((key@, value)));
        assert(old(self).wf() && !has_key(old(self).rows(), key@) ==> final(self).wf()) by {
            if old(self).wf() && !has_key(old(self).rows(), key@) {
                assert forall|i: int, j: int|
                    0 <= i < j < self.rows().len() implies self.rows()[i].0 != self.rows()[j].0 by {
                    if j == old(self).rows().len() {
                        assert(old(self).rows()[i].0 != key@);
                    } else {
                        assert(old(self).rows()[i].0 != old(self).rows()[j].0);
                    }
                }
            }
        }
    }

    /// Removes the row of `key` and returns its value, if there was one.
    pub fn take(&mut self, key: &str) -> (v: Option<V>)
        ensures
            final(self).rows() == without_key(old(self).rows(), key@),
            v == lookup(old(self).rows(), key@),
            old(self).wf() ==> final(self).wf(),
    {
        match self.position(key) {
            Some(i) => {
                let row = self.rows.remove(i);
                assert(self.rows() =~= old(self).rows().remove(i as int));
                Some(row.value)
            },
            None => None,
        }
    }

    /// Removes every row.
    pub fn clear(&mut self)
        ensures
            final(self).rows() == Seq::<(Seq<char>, V)>::empty(),
            final(self).wf(),
    {
        self.rows = Vec::new();
        assert(self.rows() =~= Seq::<(Seq<char>, V)>::empty());
    }
}

} // verus!
