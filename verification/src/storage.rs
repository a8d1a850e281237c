//! The key/value storage that the sideloading library persists its session
//! data in. Every key is scoped under a prefix (`prefix/key`); reads are
//! answered from an in-memory cache, and each write or delete updates the
//! cache and hands back the database write that must follow it.

use vstd::prelude::*;
use vstd::hash_map::StringHashMap;

verus! {

/// The database key under which `key` is kept: `prefix/key`.
pub open spec fn scoped_key_of(prefix: Seq<char>, key: Seq<char>) -> Seq<char> {
    prefix + seq!['/'] + key
}

/// What a read of `key` gives back from the cached entries.
pub open spec fn lookup(
    entries: Map<Seq<char>, Seq<char>>,
    prefix: Seq<char>,
    key: Seq<char>,
) -> Option<Seq<char>> {
    let k = scoped_key_of(prefix, key);
    if entries.contains_key(k) {
        Some(entries[k])
    } else {
        None
    }
}

/// The cache that the database rows give: each row maps its key to its
/// value, a later row overriding an earlier one with the same key.
pub open spec fn rows_to_entries(rows: Seq<(String, String)>) -> Map<Seq<char>, Seq<char>>
    decreases rows.len(),
{
    if rows.len() == 0 {
        Map::empty()
    } else {
        rows_to_entries(rows.drop_last()).insert(rows.last().0@, rows.last().1@)
    }
}

/// The SQL `LIKE` pattern that selects every row whose key starts with
/// `prefix`.
pub open spec fn prefix_pattern(prefix: Seq<char>) -> Seq<char> {
    prefix + seq!['%']
}

/// A change that must be written through to the database: set `key` to
/// `value`, or delete the row when `value` is `None`.
#[derive(Debug, Clone)]
pub struct WriteThrough {
    pub key: String,
    pub value: Option<String>,
}

/// A call that changes the storage: a store of a value under a key, or a
/// delete of a key.
pub enum StorageOp {
    Store(Seq<char>, Seq<char>),
    Delete(Seq<char>),
}

/// The key a change is about.
pub open spec fn op_key(op: StorageOp) -> Seq<char> {
    match op {
        StorageOp::Store(k, _) => k,
        StorageOp::Delete(k) => k,
    }
}

/// The cached entries after one change.
pub open spec fn cache_after(entries: Map<Seq<char>, Seq<char>>, prefix: Seq<char>, op: StorageOp) -> Map<Seq<char>, Seq<char>> {
    match op {
        StorageOp::Store(k, v) => entries.insert(scoped_key_of(prefix, k), v),
        StorageOp::Delete(k) => entries.remove(scoped_key_of(prefix, k)),
    }
}

/// The database write that a change hands back: the row's key, and its new
/// value or `None` for a delete.
pub open spec fn write_for(prefix: Seq<char>, op: StorageOp) -> (Seq<char>, Option<Seq<char>>) {
    match op {
        StorageOp::Store(k, v) => (scoped_key_of(prefix, k), Some(v)),
        StorageOp::Delete(k) => (scoped_key_of(prefix, k), None),
    }
}

pub open spec fn write_view(w: WriteThrough) -> (Seq<char>, Option<Seq<char>>) {
    (w.key@, match w.value {
        Some(v) => Some(v@),
        None => None,
    })
}

/// The view of a write is its key's characters and its value's, or nothing
/// for a delete.
pub proof fn law_write_view(w: WriteThrough)
    ensures
        write_view(w).0 == w.key@,
        w.value matches Some(v) ==> write_view(w).1 == Some(v@),
        w.value is None ==> write_view(w).1 is None,
{
}

/// The table after a write is applied: an upsert of the row, or its delete.
pub open spec fn table_after(table: Map<Seq<char>, Seq<char>>, w: (Seq<char>, Option<Seq<char>>)) -> Map<Seq<char>, Seq<char>> {
    match w.1 {
        Some(v) => table.insert(w.0, v),
        None => table.remove(w.0),
    }
}

/// The cached entries after a run of changes, in order.
pub open spec fn run_cache(entries: Map<Seq<char>, Seq<char>>, prefix: Seq<char>, ops: Seq<StorageOp>) -> Map<Seq<char>, Seq<char>>
    decreases ops.len(),
{
    if ops.len() == 0 {
        entries
    } else {
        run_cache(cache_after(entries, prefix, ops[0]), prefix, ops.drop_first())
    }
}

/// The table after the writes of a run of changes are applied, in order.
pub open spec fn run_table(table: Map<Seq<char>, Seq<char>>, prefix: Seq<char>, ops: Seq<StorageOp>) -> Map<Seq<char>, Seq<char>>
    decreases ops.len(),
{
    if ops.len() == 0 {
        table
    } else {
        run_table(table_after(table, write_for(prefix, ops[0])), prefix, ops.drop_first())
    }
}

/// The cache and the table hold the same value, or both none, under every
/// key of the prefix.
pub open spec fn cache_agrees(entries: Map<Seq<char>, Seq<char>>, table: Map<Seq<char>, Seq<char>>, prefix: Seq<char>) -> bool {
    forall|k: Seq<char>| #[trigger] lookup(entries, prefix, k) == lookup(table, prefix, k)
}

/// Scoped key/value storage with a write-through cache.
pub struct DbStorage {
    prefix: String,
    cache: StringHashMap<String>,
}

impl DbStorage {
    /// The prefix that scopes every key.
    pub closed spec fn prefix_view(&self) -> Seq<char> {
        self.prefix@
    }

    /// The cached entries, by full (scoped) key.
    pub closed spec fn entries(&self) -> Map<Seq<char>, Seq<char>> {
        self.cache@.map_values(|v: String| v@)
    }

    /// The pattern of the query that loads the rows of this prefix.
    pub fn load_pattern(prefix: &str) -> (pattern: String)
        ensures
            pattern@ == prefix_pattern(prefix@),
            pattern@ == prefix@.push('%'),
    {
        let mut pattern = String::from_str(prefix);
        pattern.append("%");
        proof {
            reveal_strlit("%");
            assert(prefix_pattern(prefix@) =~= prefix@.push('%'));
        }
        pattern
    }

    /// Builds the storage for `prefix` from the rows that the load query
    /// returned, as (key, value) pairs in the order they came.
    pub fn load(prefix: &str, rows: Vec<(String, String)>) -> (s: DbStorage)
        ensures
            s.prefix_view() == prefix@,
            s.entries() == rows_to_entries(rows@),
            forall|i: int| 0 <= i < rows@.len() ==> s.entries().contains_key(#[trigger] rows@[i].0@),
            forall|k: Seq<char>| #[trigger] s.entries().contains_key(k) ==> exists|i: int| 0 <= i < rows@.len() && rows@[i].0@ == k,
            forall|i: int| 0 <= i < rows@.len() && (forall|j: int| i < j < rows@.len() ==> rows@[j].0@ != rows@[i].0@)
                ==> s.entries()[#[trigger] rows@[i].0@] == rows@[i].1@,
    {
        let mut cache: StringHashMap<String> = StringHashMap::new();
        let mut i: usize = 0;
        while i < rows.len()
            invariant
                i <= rows@.len(),
                cache@.map_values(|v: String| v@) =~= rows_to_entries(rows@.take(i as int)),
            decreases rows@.len() - i,
        {
            let key = rows[i].0.clone();
            let value = rows[i].1.clone();
            cache.insert(key, value);
            proof {
                assert(rows@.take(i + 1).drop_last() =~= rows@.take(i as int));
                assert(cache@.map_values(|v: String| v@) =~= rows_to_entries(rows@.take(i + 1)));
            }
            i = i + 1;
        }
        assert(rows@.take(rows@.len() as int) =~= rows@);
        proof {
            law_loaded_rows(rows@);
        }
        DbStorage { prefix: String::from_str(prefix), cache }
    }

    /// The full database key for `key`.
    pub fn scoped_key(&self, key: &str) -> (k: String)
        ensures
            k@ == scoped_key_of(self.prefix_view(), key@),
            k@.len() == self.prefix_view().len() + 1 + key@.len(),
            k@.subrange(0, self.prefix_view().len() as int) == self.prefix_view(),
            k@[self.prefix_view().len() as int] == '/',
            k@.skip(self.prefix_view().len() as int + 1) == key@,
    {
        let mut k = self.prefix.clone();
        k.append("/");
        k.append(key);
        proof {
            reveal_strlit("/");
            law_scoped_key_shape(self.prefix@, key@);
        }
        k
    }

    /// Stores `value` under `key`; the returned write must follow.
    pub fn store(&mut self, key: &str, value: &str) -> (w: WriteThrough)
        ensures
            final(self).prefix_view() == old(self).prefix_view(),
            final(self).entries() == old(self).entries().insert(
                scoped_key_of(old(self).prefix_view(), key@),
                value@,
            ),
            w.key@ == scoped_key_of(old(self).prefix_view(), key@),
            w.value matches Some(v) && v@ == value@,
            final(self).entries() == cache_after(old(self).entries(), old(self).prefix_view(), StorageOp::Store(key@, value@)),
            write_view(w) == write_for(old(self).prefix_view(), StorageOp::Store(key@, value@)),
    {
        let scoped = self.scoped_key(key);
        self.cache.insert(scoped.clone(), String::from_str(value));
        assert(self.entries() =~= old(self).entries().insert(scoped@, value@));
        WriteThrough { key: scoped, value: Some(String::from_str(value)) }
    }

    /// The value stored under `key`, if any.
    pub fn retrieve(&self, key: &str) -> (res: Option<String>)
        ensures
            match res {
                Some(v) => lookup(self.entries(), self.prefix_view(), key@) == Some(v@),
                None => lookup(self.entries(), self.prefix_view(), key@) is None,
            },
    {
        let scoped = self.scoped_key(key);
        match self.cache.get(scoped.as_str()) {
            Some(v) => Some(v.clone()),
            None => None,
        }
    }

    /// Deletes `key`; the returned write must follow.
    pub fn delete(&mut self, key: &str) -> (w: WriteThrough)
        ensures
            final(self).prefix_view() == old(self).prefix_view(),
            final(self).entries() == old(self).entries().remove(
                scoped_key_of(old(self).prefix_view(), key@),
            ),
            w.key@ == scoped_key_of(old(self).prefix_view(), key@),
            w.value is None,
            final(self).entries() == cache_after(old(self).entries(), old(self).prefix_view(), StorageOp::Delete(key@)),
            write_view(w) == write_for(old(self).prefix_view(), StorageOp::Delete(key@)),
    {
        let scoped = self.scoped_key(key);
        self.cache.remove(scoped.as_str());
        assert(self.entries() =~= old(self).entries().remove(scoped@));
        WriteThrough { key: scoped, value: None }
    }
}

/// Two keys under one prefix never share a database key.
pub proof fn law_scoped_keys_distinct(prefix: Seq<char>, k1: Seq<char>, k2: Seq<char>)
    requires
        k1 != k2,
    ensures
        scoped_key_of(prefix, k1) != scoped_key_of(prefix, k2),
{
    let head = prefix + seq!['/'];
    if scoped_key_of(prefix, k1) == scoped_key_of(prefix, k2) {
        assert(k1 =~= scoped_key_of(prefix, k1).subrange(head.len() as int, scoped_key_of(prefix, k1).len() as int));
        assert(k2 =~= scoped_key_of(prefix, k2).subrange(head.len() as int, scoped_key_of(prefix, k2).len() as int));
    }
}

/// A read of a key gives back the value last stored under it.
pub proof fn law_retrieve_after_store(
    entries: Map<Seq<char>, Seq<char>>,
    prefix: Seq<char>,
    key: Seq<char>,
    value: Seq<char>,
)
    ensures
        lookup(entries.insert(scoped_key_of(prefix, key), value), prefix, key) == Some(value),
{
}

/// A read of a deleted key gives nothing back.
pub proof fn law_retrieve_after_delete(
    entries: Map<Seq<char>, Seq<char>>,
    prefix: Seq<char>,
    key: Seq<char>,
)
    ensures
        lookup(entries.remove(scoped_key_of(prefix, key)), prefix, key) is None,
{
}

/// Storing or deleting one key leaves what every other key reads unchanged.
pub proof fn law_other_keys_unchanged(
    entries: Map<Seq<char>, Seq<char>>,
    prefix: Seq<char>,
    key: Seq<char>,
    other: Seq<char>,
    value: Seq<char>,
)
    requires
        key != other,
    ensures
        lookup(entries.insert(scoped_key_of(prefix, key), value), prefix, other)
            == lookup(entries, prefix, other),
        lookup(entries.remove(scoped_key_of(prefix, key)), prefix, other)
            == lookup(entries, prefix, other),
{
    law_scoped_keys_distinct(prefix, key, other);
}


/// A run of changes that does not touch `key` leaves what it reads unchanged.
proof fn lemma_run_other_keys(entries: Map<Seq<char>, Seq<char>>, prefix: Seq<char>, ops: Seq<StorageOp>, key: Seq<char>)
    requires
        forall|j: int| 0 <= j < ops.len() ==> op_key(#[trigger] ops[j]) != key,
    ensures
        lookup(run_cache(entries, prefix, ops), prefix, key) == lookup(entries, prefix, key),
    decreases ops.len(),
{
    if ops.len() > 0 {
        let op = ops[0];
        assert(op_key(ops[0]) != key);
        match op {
            StorageOp::Store(k, v) => law_other_keys_unchanged(entries, prefix, k, key, v),
            StorageOp::Delete(k) => law_other_keys_unchanged(entries, prefix, k, key, seq![]),
        }
        assert forall|j: int| 0 <= j < ops.drop_first().len() implies op_key(#[trigger] ops.drop_first()[j]) != key by {
            assert(ops.drop_first()[j] == ops[j + 1]);
        }
        lemma_run_other_keys(cache_after(entries, prefix, op), prefix, ops.drop_first(), key);
    }
}

/// Over any run of stores and deletes, a read of a key gives back what the
/// last change of that key left: the value it stored, or nothing after a
/// delete.
pub proof fn law_read_after_last_write(
    entries: Map<Seq<char>, Seq<char>>,
    prefix: Seq<char>,
    ops: Seq<StorageOp>,
    i: int,
)
    requires
        0 <= i < ops.len(),
        forall|j: int| i < j < ops.len() ==> op_key(#[trigger] ops[j]) != op_key(ops[i]),
    ensures
        lookup(run_cache(entries, prefix, ops), prefix, op_key(ops[i])) == (match ops[i] {
            StorageOp::Store(_, v) => Some(v),
            StorageOp::Delete(_) => None::<Seq<char>>,
        }),
    decreases ops.len(),
{
    let key = op_key(ops[i]);
    let rest = ops.drop_first();
    let after = cache_after(entries, prefix, ops[0]);
    if i == 0 {
        match ops[0] {
            StorageOp::Store(k, v) => law_retrieve_after_store(entries, prefix, k, v),
            StorageOp::Delete(k) => law_retrieve_after_delete(entries, prefix, k),
        }
        assert forall|j: int| 0 <= j < rest.len() implies op_key(#[trigger] rest[j]) != key by {
            assert(rest[j] == ops[j + 1]);
        }
        lemma_run_other_keys(after, prefix, rest, key);
    } else {
        assert(rest[i - 1] == ops[i]);
        assert forall|j: int| i - 1 < j < rest.len() implies op_key(#[trigger] rest[j]) != op_key(rest[i - 1]) by {
            assert(rest[j] == ops[j + 1]);
        }
        law_read_after_last_write(after, prefix, rest, i - 1);
    }
}

/// When each write that a change hands back is applied to the table, the
/// cache and the table keep agreeing on every key of the prefix, over any run
/// of changes.
pub proof fn law_cache_tracks_table(
    entries: Map<Seq<char>, Seq<char>>,
    table: Map<Seq<char>, Seq<char>>,
    prefix: Seq<char>,
    ops: Seq<StorageOp>,
)
    requires
        cache_agrees(entries, table, prefix),
    ensures
        cache_agrees(run_cache(entries, prefix, ops), run_table(table, prefix, ops), prefix),
    decreases ops.len(),
{
    if ops.len() > 0 {
        let op = ops[0];
        let e2 = cache_after(entries, prefix, op);
        let t2 = table_after(table, write_for(prefix, op));
        assert forall|k: Seq<char>| #[trigger] lookup(e2, prefix, k) == lookup(t2, prefix, k) by {
            assert(lookup(entries, prefix, k) == lookup(table, prefix, k));
            if k == op_key(op) {
                match op {
                    StorageOp::Store(key, v) => {
                        law_retrieve_after_store(entries, prefix, key, v);
                        law_retrieve_after_store(table, prefix, key, v);
                    },
                    StorageOp::Delete(key) => {
                        law_retrieve_after_delete(entries, prefix, key);
                        law_retrieve_after_delete(table, prefix, key);
                    },
                }
            } else {
                match op {
                    StorageOp::Store(key, v) => {
                        law_other_keys_unchanged(entries, prefix, key, k, v);
                        law_other_keys_unchanged(table, prefix, key, k, v);
                    },
                    StorageOp::Delete(key) => {
                        law_other_keys_unchanged(entries, prefix, key, k, seq![]);
                        law_other_keys_unchanged(table, prefix, key, k, seq![]);
                    },
                }
            }
        }
        law_cache_tracks_table(e2, t2, prefix, ops.drop_first());
    }
}


/// Loading keeps every row: each row's key is cached, under the value of the
/// last row with that key, and nothing else is cached.
pub proof fn law_loaded_rows(rows: Seq<(String, String)>)
    ensures
        forall|i: int| 0 <= i < rows.len() ==> rows_to_entries(rows).contains_key(#[trigger] rows[i].0@),
        forall|k: Seq<char>| #[trigger] rows_to_entries(rows).contains_key(k) ==> exists|i: int| 0 <= i < rows.len() && rows[i].0@ == k,
        forall|i: int| 0 <= i < rows.len() && (forall|j: int| i < j < rows.len() ==> rows[j].0@ != rows[i].0@)
            ==> rows_to_entries(rows)[#[trigger] rows[i].0@] == rows[i].1@,
    decreases rows.len(),
{
    if rows.len() > 0 {
        let init = rows.drop_last();
        let last = rows.last();
        law_loaded_rows(init);
        let m = rows_to_entries(rows);
        assert(m == rows_to_entries(init).insert(last.0@, last.1@));
        assert forall|i: int| 0 <= i < rows.len() implies m.contains_key(#[trigger] rows[i].0@) by {
            if i < rows.len() - 1 {
                assert(init[i] == rows[i]);
            }
        }
        assert forall|k: Seq<char>| #[trigger] m.contains_key(k) implies exists|i: int| 0 <= i < rows.len() && rows[i].0@ == k by {
            if k == last.0@ {
                assert(rows[rows.len() - 1].0@ == k);
            } else {
                assert(rows_to_entries(init).contains_key(k));
                let i = choose|i: int| 0 <= i < init.len() && init[i].0@ == k;
                assert(rows[i] == init[i]);
            }
        }
        assert forall|i: int| 0 <= i < rows.len() && (forall|j: int| i < j < rows.len() ==> rows[j].0@ != rows[i].0@)
            implies m[#[trigger] rows[i].0@] == rows[i].1@ by {
            if i < rows.len() - 1 {
                assert(init[i] == rows[i]);
                assert(rows[rows.len() - 1].0@ != rows[i].0@);
                assert forall|j: int| i < j < init.len() implies init[j].0@ != init[i].0@ by {
                    assert(init[j] == rows[j]);
                }
            }
        }
    }
}


/// The database key of `key` is the prefix, a `/`, then the key itself.
pub proof fn law_scoped_key_shape(prefix: Seq<char>, key: Seq<char>)
    ensures
        scoped_key_of(prefix, key).len() == prefix.len() + 1 + key.len(),
        scoped_key_of(prefix, key).subrange(0, prefix.len() as int) == prefix,
        scoped_key_of(prefix, key)[prefix.len() as int] == '/',
        scoped_key_of(prefix, key).skip(prefix.len() as int + 1) == key,
{
    let k = scoped_key_of(prefix, key);
    assert(k.subrange(0, prefix.len() as int) =~= prefix);
    assert(k.skip(prefix.len() as int + 1) =~= key);
}

} // verus!
