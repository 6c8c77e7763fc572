//! A table of records of one kind, kept in a stable map under their
//! identifiers.
//!
//! The map holds bytes. A table is well formed when every entry of its map is
//! the layout of a record; its view is then the map from identifiers to
//! records.

use vstd::prelude::*;
use core::marker::PhantomData;
use crate::record::Record;
use crate::stable::{
    map_entries, map_get, map_init, map_insert, map_new, map_remove, stored, RecordMap, Region,
    MAX_RECORD_SIZE,
};

verus! {

/// One past the largest identifier.
pub open spec fn id_limit() -> nat {
    0x1_0000_0000_0000_0000
}

/// The entries of `m` with an identifier below `bound`, by ascending
/// identifier.
pub open spec fn entries_below<V>(m: Map<u64, V>, bound: nat) -> Seq<(u64, V)>
    decreases bound,
{
    if bound == 0 {
        Seq::empty()
    } else {
        let id = (bound - 1) as u64;
        let before = entries_below(m, (bound - 1) as nat);
        if bound <= id_limit() && m.dom().contains(id) {
            before.push((id, m[id]))
        } else {
            before
        }
    }
}

/// All entries of `m`, by ascending identifier.
pub open spec fn ascending<V>(m: Map<u64, V>) -> Seq<(u64, V)> {
    entries_below(m, id_limit())
}

/// The records of `m`, by ascending identifier.
pub open spec fn rows<V>(m: Map<u64, V>) -> Seq<V> {
    ascending(m).map_values(|entry: (u64, V)| entry.1)
}

/// The views of the values of a sequence.
pub open spec fn views<T: View>(values: Seq<T>) -> Seq<T::V> {
    values.map_values(|value: T| value@)
}

/// `entries` holds every entry of `m` once, by ascending identifier.
pub open spec fn lists<V>(entries: Seq<(u64, V)>, m: Map<u64, V>) -> bool {
    &&& forall|i: int, j: int| 0 <= i < j < entries.len() ==> entries[i].0 < entries[j].0
    &&& forall|i: int|
        0 <= i < entries.len() ==> m.contains_pair(#[trigger] entries[i].0, entries[i].1)
    &&& forall|id: u64|
        m.dom().contains(id) ==> exists|i: int|
            0 <= i < entries.len() && #[trigger] entries[i].0 == id
}

proof fn lemma_below_lists<V>(m: Map<u64, V>, bound: nat)
    requires
        bound <= id_limit(),
    ensures
        forall|i: int, j: int|
            0 <= i < j < entries_below(m, bound).len() ==> entries_below(m, bound)[i].0
                < entries_below(m, bound)[j].0,
        forall|i: int|
            0 <= i < entries_below(m, bound).len() ==> (#[trigger] entries_below(m, bound)[i]).0
                < bound && m.contains_pair(
                entries_below(m, bound)[i].0,
                entries_below(m, bound)[i].1,
            ),
        forall|id: u64|
            m.dom().contains(id) && id < bound ==> exists|i: int|
                0 <= i < entries_below(m, bound).len() && #[trigger] entries_below(m, bound)[i].0
                    == id,
    decreases bound,
{
    if bound > 0 {
        lemma_below_lists(m, (bound - 1) as nat);
        let before = entries_below(m, (bound - 1) as nat);
        let now = entries_below(m, bound);
        let last = (bound - 1) as u64;
        assert forall|id: u64| m.dom().contains(id) && id < bound implies exists|i: int|
            0 <= i < now.len() && #[trigger] now[i].0 == id by {
            if id == last {
                assert(now[before.len() as int].0 == id);
            } else {
                let i = choose|i: int| 0 <= i < before.len() && #[trigger] before[i].0 == id;
                assert(now[i].0 == id);
            }
        }
    }
}

/// The entries of a map in ascending order list the map.
pub proof fn lemma_ascending_lists<V>(m: Map<u64, V>)
    ensures
        lists(ascending(m), m),
{
    lemma_below_lists(m, id_limit());
}

proof fn lemma_lists_below<V>(entries: Seq<(u64, V)>, m: Map<u64, V>, bound: nat, n: int)
    requires
        lists(entries, m),
        bound <= id_limit(),
        0 <= n <= entries.len(),
        forall|i: int| 0 <= i < n ==> (#[trigger] entries[i]).0 < bound,
        forall|i: int| n <= i < entries.len() ==> (#[trigger] entries[i]).0 >= bound,
    ensures
        entries_below(m, bound) == entries.take(n),
    decreases bound,
{
    if bound == 0 {
        assert(n == 0) by {
            if n > 0 {
                assert(entries[0].0 < bound);
            }
        }
        assert(entries.take(0) =~= Seq::empty());
    } else {
        let id = (bound - 1) as u64;
        if m.dom().contains(id) {
            let at = choose|i: int| 0 <= i < entries.len() && #[trigger] entries[i].0 == id;
            assert(at == n - 1) by {
                if at >= n {
                    assert(entries[at].0 >= bound);
                }
                if at < n - 1 {
                    assert(entries[n - 1].0 < bound);
                    assert(entries[at].0 < entries[n - 1].0);
                }
            }
            assert forall|i: int| 0 <= i < n - 1 implies (#[trigger] entries[i]).0 < bound - 1 by {
                assert(entries[i].0 < entries[at].0);
            }
            lemma_lists_below(entries, m, (bound - 1) as nat, n - 1);
            assert(m.contains_pair(entries[at].0, entries[at].1));
            assert(entries.take(n) =~= entries.take(n - 1).push(entries[at]));
        } else {
            assert forall|i: int| 0 <= i < n implies (#[trigger] entries[i]).0 < bound - 1 by {
                assert(m.contains_pair(entries[i].0, entries[i].1));
            }
            lemma_lists_below(entries, m, (bound - 1) as nat, n);
        }
    }
}

/// A sequence that lists a map is the map's entries in ascending order.
pub proof fn lemma_lists_is_ascending<V>(entries: Seq<(u64, V)>, m: Map<u64, V>)
    requires
        lists(entries, m),
    ensures
        entries == ascending(m),
{
    lemma_lists_below(entries, m, id_limit(), entries.len() as int);
    assert(entries.take(entries.len() as int) =~= entries);
}

/// Filtering one value more of a sequence.
pub proof fn lemma_filter_next<V>(all: Seq<V>, n: int, keep: spec_fn(V) -> bool)
    requires
        0 <= n < all.len(),
    ensures
        all.take(n + 1).filter(keep) == if keep(all[n]) {
            all.take(n).filter(keep).push(all[n])
        } else {
            all.take(n).filter(keep)
        },
{
    reveal(Seq::filter);
    assert(all.take(n + 1).drop_last() =~= all.take(n));
}

/// Filtering none of a sequence, and all of it.
pub proof fn lemma_filter_none<V>(all: Seq<V>, keep: spec_fn(V) -> bool)
    ensures
        all.take(0).filter(keep) == Seq::<V>::empty(),
        all.take(all.len() as int) == all,
{
    reveal(Seq::filter);
    assert(all.take(0) =~= Seq::<V>::empty());
    assert(all.take(all.len() as int) =~= all);
}

/// The rows of a map are its values: each record kept in the map is a row,
/// and each row is kept in the map.
pub proof fn lemma_rows_are_values<V>(m: Map<u64, V>)
    ensures
        rows(m).to_set() == m.values(),
{
    lemma_ascending_lists(m);
    assert forall|v: V| rows(m).to_set().contains(v) implies m.values().contains(v) by {
        let i = choose|i: int| 0 <= i < rows(m).len() && rows(m)[i] == v;
        assert(m.contains_pair(ascending(m)[i].0, ascending(m)[i].1));
        assert(m.dom().contains(ascending(m)[i].0) && m[ascending(m)[i].0] == v);
    }
    assert forall|v: V| m.values().contains(v) implies rows(m).to_set().contains(v) by {
        let id = choose|id: u64| #[trigger] m.dom().contains(id) && m[id] == v;
        let i = choose|i: int| 0 <= i < ascending(m).len() && #[trigger] ascending(m)[i].0 == id;
        assert(m.contains_pair(ascending(m)[i].0, ascending(m)[i].1));
        assert(rows(m)[i] == v);
    }
    assert(rows(m).to_set() =~= m.values());
}

/// A map without entries has no rows, and only such a map.
pub proof fn lemma_rows_empty<V>(m: Map<u64, V>)
    ensures
        rows(m).len() == 0 <==> forall|id: u64| !m.dom().contains(id),
{
    lemma_ascending_lists(m);
    if rows(m).len() > 0 {
        let first = ascending(m)[0];
        assert(m.contains_pair(first.0, first.1));
    }
}

/// A table of records of kind `R`.
pub struct Table<R: Record> {
    map: RecordMap,
    kind: PhantomData<R>,
}

impl<R: Record> View for Table<R> {
    type V = Map<u64, R::V>;

    closed spec fn view(&self) -> Map<u64, R::V> {
        Map::new(
            |id: u64| stored(self.map).dom().contains(id),
            |id: u64| R::parse(stored(self.map)[id])->Some_0,
        )
    }
}

impl<R: Record> Table<R> {
    /// Every entry of the map is the layout of a record.
    pub closed spec fn wf(&self) -> bool {
        forall|id: u64| #[trigger]
            stored(self.map).dom().contains(id) ==> R::parse(stored(self.map)[id]) is Some
    }

    /// A table without records, written over whatever `region` held.
    pub(crate) fn new(region: Region) -> (table: Self)
        ensures
            table.wf(),
            table@ == Map::<u64, R::V>::empty(),
    {
        let table = Table { map: map_new(region), kind: PhantomData };
        assert(table@ =~= Map::<u64, R::V>::empty());
        table
    }

    /// Opens the table kept in `region`. `None` when the region holds an
    /// entry that is not the layout of a record.
    pub(crate) fn open(region: Region) -> (opened: Option<Self>)
        ensures
            opened is Some ==> opened->Some_0.wf(),
    {
        Self::check(map_init(region))
    }

    /// The table that `map` holds. `None` when an entry of `map` is not the
    /// layout of a record; else the table of the records laid out in it.
    pub fn check(map: RecordMap) -> (checked: Option<Self>)
        ensures
            checked is Some <==> legible::<R>(stored(map)),
            checked matches Some(table) ==> table.wf() && table@ == decoded::<R>(stored(map)),
    {
        let entries = map_entries(&map);
        let mut at: usize = 0;
        while at < entries.len()
            invariant
                at <= entries@.len(),
                forall|i: int|
                    0 <= i < entries@.len() ==> stored(map).contains_pair(
                        #[trigger] entries@[i].0,
                        entries@[i].1@,
                    ),
                forall|i: int| 0 <= i < at ==> R::parse((#[trigger] entries@[i]).1@) is Some,
            decreases entries@.len() - at,
        {
            if R::decode(&entries[at].1).is_none() {
                assert(stored(map).contains_pair(entries@[at as int].0, entries@[at as int].1@));
                return None;
            }
            at = at + 1;
        }
        let table = Table { map, kind: PhantomData };
        proof {
            assert forall|id: u64| #[trigger]
                stored(table.map).dom().contains(id) implies R::parse(stored(table.map)[id])
                is Some by {
                let i = choose|i: int| 0 <= i < entries@.len() && #[trigger] entries@[i].0 == id;
                assert(R::parse(entries@[i].1@) is Some);
            }
            assert(table@ =~= decoded::<R>(stored(map)));
        }
        Some(table)
    }

    /// The record kept under `id`.
    pub fn get(&self, id: u64) -> (found: Option<R>)
        requires
            self.wf(),
        ensures
            found is Some <==> self@.dom().contains(id),
            found is Some ==> found->Some_0@ == self@[id],
    {
        match map_get(&self.map, id) {
            Some(bytes) => {
                let record = R::decode(&bytes);
                assert(record is Some);
                record
            },
            None => None,
        }
    }

    /// Whether a record is kept under `id`.
    pub fn contains(&self, id: u64) -> (kept: bool)
        requires
            self.wf(),
        ensures
            kept == self@.dom().contains(id),
    {
        map_get(&self.map, id).is_some()
    }

    /// Whether the layout of `record` is small enough to be kept.
    pub fn fits(record: &R) -> (small: bool)
        ensures
            small == (R::size(record@) <= MAX_RECORD_SIZE),
    {
        record.encode().len() <= MAX_RECORD_SIZE
    }

    /// Keeps `record` under `id`, in place of what was kept there.
    pub fn insert(&mut self, id: u64, record: &R)
        requires
            old(self).wf(),
            R::size(record@) <= MAX_RECORD_SIZE,
        ensures
            final(self).wf(),
            final(self)@ == old(self)@.insert(id, record@),
    {
        let bytes = record.encode();
        map_insert(&mut self.map, id, &bytes);
        assert(self@ =~= old(self)@.insert(id, record@));
    }

    /// Drops what is kept under `id` and returns it.
    pub fn remove(&mut self, id: u64) -> (removed: Option<R>)
        requires
            old(self).wf(),
        ensures
            final(self).wf(),
            final(self)@ == old(self)@.remove(id),
            removed is Some <==> old(self)@.dom().contains(id),
            removed is Some ==> removed->Some_0@ == old(self)@[id],
    {
        let removed = match map_remove(&mut self.map, id) {
            Some(bytes) => {
                let record = R::decode(&bytes);
                assert(record is Some);
                record
            },
            None => None,
        };
        assert(self@ =~= old(self)@.remove(id));
        removed
    }

    /// All records with their identifiers, each once, by ascending
    /// identifier.
    pub fn scan(&self) -> (entries: Vec<(u64, R)>)
        requires
            self.wf(),
        ensures
            entries@.len() == ascending(self@).len(),
            forall|i: int|
                0 <= i < entries@.len() ==> (#[trigger] entries@[i]).0 == ascending(self@)[i].0
                    && entries@[i].1@ == ascending(self@)[i].1,
            lists(ascending(self@), self@),
    {
        let raw = map_entries(&self.map);
        let mut entries: Vec<(u64, R)> = Vec::new();
        let mut at: usize = 0;
        while at < raw.len()
            invariant
                self.wf(),
                at <= raw@.len(),
                entries@.len() == at,
                forall|i: int|
                    0 <= i < raw@.len() ==> stored(self.map).contains_pair(
                        #[trigger] raw@[i].0,
                        raw@[i].1@,
                    ),
                forall|i: int|
                    0 <= i < at ==> (#[trigger] entries@[i]).0 == raw@[i].0 && R::parse(raw@[i].1@)
                        == Some(entries@[i].1@),
            decreases raw@.len() - at,
        {
            let id = raw[at].0;
            assert(stored(self.map).contains_pair(raw@[at as int].0, raw@[at as int].1@));
            match R::decode(&raw[at].1) {
                Some(record) => {
                    entries.push((id, record));
                },
                None => {
                    assert(false);
                },
            }
            at = at + 1;
        }
        proof {
            let listed = Seq::new(entries@.len(), |i: int| (entries@[i].0, entries@[i].1@));
            assert(lists(listed, self@)) by {
                assert forall|i: int| 0 <= i < listed.len() implies self@.contains_pair(
                    #[trigger] listed[i].0,
                    listed[i].1,
                ) by {
                    assert(stored(self.map).contains_pair(raw@[i].0, raw@[i].1@));
                    assert(entries@[i].0 == raw@[i].0);
                }
                assert forall|id: u64| self@.dom().contains(id) implies exists|i: int|
                    0 <= i < listed.len() && #[trigger] listed[i].0 == id by {
                    let i = choose|i: int| 0 <= i < raw@.len() && #[trigger] raw@[i].0 == id;
                    assert(entries@[i].0 == raw@[i].0);
                    assert(listed[i].0 == id);
                }
                assert forall|i: int, j: int| 0 <= i < j < listed.len() implies listed[i].0
                    < listed[j].0 by {
                    assert(entries@[i].0 == raw@[i].0);
                    assert(entries@[j].0 == raw@[j].0);
                }
            }
            lemma_lists_is_ascending(listed, self@);
        }
        entries
    }

    /// All records, by ascending identifier.
    pub fn rows(&self) -> (records: Vec<R>)
        requires
            self.wf(),
        ensures
            views(records@) == rows(self@),
    {
        let entries = self.scan();
        let ghost listed = entries@;
        let mut records: Vec<R> = Vec::new();
        for entry in it: entries
            invariant
                it.seq() == listed,
                records@.len() == it.index(),
                forall|i: int| 0 <= i < records@.len() ==> (#[trigger] records@[i]) == listed[i].1,
        {
            records.push(entry.1);
        }
        assert(views(records@) =~= rows(self@));
        records
    }
}

/// Every entry of `raw` is the layout of a record of kind `R`.
pub open spec fn legible<R: Record>(raw: Map<u64, Seq<u8>>) -> bool {
    forall|id: u64| #[trigger] raw.dom().contains(id) ==> R::parse(raw[id]) is Some
}

/// The records of kind `R` that the entries of `raw` are the layouts of.
pub open spec fn decoded<R: Record>(raw: Map<u64, Seq<u8>>) -> Map<u64, R::V> {
    Map::new(|id: u64| raw.dom().contains(id), |id: u64| R::parse(raw[id])->Some_0)
}

} // verus!
