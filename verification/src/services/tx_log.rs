//! The transaction log: an insertion-ordered map from transaction id to
//! record, bounded by an optional capacity, evicting oldest first. It is the
//! lookup table for disputes: what has been evicted can no longer be found.

use crate::domain::transaction::{TrxStatus, TxRecord};
use indexmap::IndexMap;
use vstd::prelude::*;

verus! {

/// Declares `indexmap::IndexMap` to the verifier as a type whose inside it
/// does not see.
#[verifier::external_type_specification]
#[verifier::external_body]
#[verifier::reject_recursive_types(K)]
#[verifier::reject_recursive_types(V)]
#[verifier::reject_recursive_types(S)]
pub struct ExIndexMap<K, V, S>(IndexMap<K, V, S>);

/// The key-value pairs an `IndexMap` holds, in its order. A map holds no key
/// twice, so a key has one place in them at most.
pub uninterp spec fn index_map_entries(map: IndexMap<u32, TxRecord>) -> Seq<(u32, TxRecord)>;

/// Whether some entry has the key.
pub open spec fn has_key(entries: Seq<(u32, TxRecord)>, tx: u32) -> bool {
    exists|i: int| 0 <= i < entries.len() && (#[trigger] entries[i]).0 == tx
}

/// The place of an entry with the key, where there is one.
pub open spec fn position(entries: Seq<(u32, TxRecord)>, tx: u32) -> int {
    choose|i: int| 0 <= i < entries.len() && (#[trigger] entries[i]).0 == tx
}

/// The record stored under the key.
pub open spec fn lookup(entries: Seq<(u32, TxRecord)>, tx: u32) -> Option<TxRecord> {
    if has_key(entries, tx) {
        Some(entries[position(entries, tx)].1)
    } else {
        None
    }
}

/// No key occurs twice.
pub open spec fn distinct_keys(entries: Seq<(u32, TxRecord)>) -> bool {
    forall|i: int, j: int|
        0 <= i < j < entries.len() ==> (#[trigger] entries[i]).0 != (#[trigger] entries[j]).0
}

/// The length a log of this capacity can reach. A capacity of zero still
/// lets the newest entry in: there is nothing older to evict for it.
pub open spec fn within_capacity(len: nat, capacity: Option<usize>) -> bool {
    capacity matches Some(c) ==> len <= c || len <= 1
}

/// The entries once the oldest has made room, where the log is full.
pub open spec fn make_room(entries: Seq<(u32, TxRecord)>, capacity: Option<usize>) -> Seq<
    (u32, TxRecord),
> {
    if capacity matches Some(c) && entries.len() >= c && entries.len() > 0 {
        entries.skip(1)
    } else {
        entries
    }
}

/// The entries once a record is stored under a key: in the key's place where
/// it has one, last otherwise.
pub open spec fn stored(entries: Seq<(u32, TxRecord)>, tx: u32, record: TxRecord) -> Seq<
    (u32, TxRecord),
> {
    if has_key(entries, tx) {
        entries.update(position(entries, tx), (tx, record))
    } else {
        entries.push((tx, record))
    }
}

/// The entries once the status of the record under a key is set; nothing
/// changes where the key is absent.
pub open spec fn with_status(entries: Seq<(u32, TxRecord)>, tx: u32, status: TrxStatus) -> Seq<
    (u32, TxRecord),
> {
    if has_key(entries, tx) {
        let i = position(entries, tx);
        entries.update(i, (tx, TxRecord { status, ..entries[i].1 }))
    } else {
        entries
    }
}

/// With distinct keys, an entry's key is found at that entry's place.
pub proof fn lemma_position_unique(entries: Seq<(u32, TxRecord)>, i: int)
    requires
        distinct_keys(entries),
        0 <= i < entries.len(),
    ensures
        has_key(entries, entries[i].0),
        position(entries, entries[i].0) == i,
        lookup(entries, entries[i].0) == Some(entries[i].1),
{
    let tx = entries[i].0;
    let p = position(entries, tx);
    assert(0 <= p < entries.len() && entries[p].0 == tx);
    if p < i {
        assert(entries[p].0 != entries[i].0);
    } else if i < p {
        assert(entries[i].0 != entries[p].0);
    }
}

/// Creates an empty map with `IndexMap::new`.
#[verifier::external_body]
fn index_map_new() -> (map: IndexMap<u32, TxRecord>)
    ensures
        index_map_entries(map) == Seq::<(u32, TxRecord)>::empty(),
{
    IndexMap::new()
}

/// `IndexMap::len`: the number of pairs. It does not panic.
#[verifier::external_body]
fn index_map_len(map: &IndexMap<u32, TxRecord>) -> (n: usize)
    ensures
        n == index_map_entries(*map).len(),
    no_unwind
{
    map.len()
}

/// `IndexMap::contains_key`: whether the key is present.
#[verifier::external_body]
fn index_map_contains_key(map: &IndexMap<u32, TxRecord>, tx: u32) -> (present: bool)
    ensures
        present == has_key(index_map_entries(*map), tx),
{
    map.contains_key(&tx)
}

/// `IndexMap::get`: the value stored for the key, if it is present.
#[verifier::external_body]
fn index_map_get(map: &IndexMap<u32, TxRecord>, tx: u32) -> (record: Option<TxRecord>)
    ensures
        record == lookup(index_map_entries(*map), tx),
{
    map.get(&tx).copied()
}

/// `IndexMap::get_mut`: a mutable reference to the value stored for the key,
/// if it is present. What is written through the reference replaces that
/// value; the key, the order and the other pairs stay. It does not panic.
#[verifier::external_body]
fn index_map_get_mut(map: &mut IndexMap<u32, TxRecord>, tx: u32) -> (r: Option<&mut TxRecord>)
    ensures
        match r {
            Some(record) => {
                let i = position(index_map_entries(*old(map)), tx);
                &&& has_key(index_map_entries(*old(map)), tx)
                &&& *record == index_map_entries(*old(map))[i].1
                &&& index_map_entries(*final(map)) == index_map_entries(*old(map)).update(
                    i,
                    (tx, *final(record)),
                )
            },
            None => {
                &&& !has_key(index_map_entries(*old(map)), tx)
                &&& index_map_entries(*final(map)) == index_map_entries(*old(map))
            },
        },
    no_unwind
{
    map.get_mut(&tx)
}

/// `IndexMap::shift_remove_index`: removes the pair at the index and returns
/// it, the pairs behind it moving up in their order; an index past the end
/// removes nothing. It does not panic.
#[verifier::external_body]
fn index_map_shift_remove_index(map: &mut IndexMap<u32, TxRecord>, index: usize) -> (removed:
    Option<(u32, TxRecord)>)
    ensures
        index < index_map_entries(*old(map)).len() ==> {
            &&& removed == Some(index_map_entries(*old(map))[index as int])
            &&& index_map_entries(*final(map)) == index_map_entries(*old(map)).remove(
                index as int,
            )
        },
        index >= index_map_entries(*old(map)).len() ==> {
            &&& removed is None
            &&& index_map_entries(*final(map)) == index_map_entries(*old(map))
        },
    no_unwind
{
    map.shift_remove_index(index)
}

/// `IndexMap::insert`: where the key is present its value is replaced in
/// place and the old value returned; otherwise the pair is added last and
/// `None` returned. It does not panic.
#[verifier::external_body]
fn index_map_insert(map: &mut IndexMap<u32, TxRecord>, tx: u32, record: TxRecord) -> (replaced:
    Option<TxRecord>)
    ensures
        index_map_entries(*final(map)) == stored(index_map_entries(*old(map)), tx, record),
        replaced == lookup(index_map_entries(*old(map)), tx),
    no_unwind
{
    map.insert(tx, record)
}

/// The transaction log. Its view is the sequence of `(tx, record)` pairs,
/// oldest first.
pub struct TxLog {
    entries: IndexMap<u32, TxRecord>,
    capacity: Option<usize>,
}

impl View for TxLog {
    type V = Seq<(u32, TxRecord)>;

    closed spec fn view(&self) -> Seq<(u32, TxRecord)> {
        index_map_entries(self.entries)
    }
}

impl TxLog {
    /// The capacity the log was made with; `None` is unbounded.
    pub closed spec fn spec_capacity(&self) -> Option<usize> {
        self.capacity
    }

    /// What holds of every log: no transaction id occurs twice, and the
    /// length stays within the capacity.
    #[verifier::type_invariant]
    pub open spec fn wf(&self) -> bool {
        &&& distinct_keys(self@)
        &&& within_capacity(self@.len(), self.spec_capacity())
    }

    /// An empty log of the given capacity.
    pub fn new(capacity: Option<usize>) -> (log: Self)
        ensures
            log@ == Seq::<(u32, TxRecord)>::empty(),
            log.spec_capacity() == capacity,
            log.wf(),
    {
        TxLog { entries: index_map_new(), capacity }
    }

    /// The capacity the log was made with; `None` is unbounded.
    pub fn capacity(&self) -> (capacity: Option<usize>)
        ensures
            capacity == self.spec_capacity(),
    {
        self.capacity
    }

    /// The number of records held.
    pub fn len(&self) -> (n: usize)
        ensures
            n == self@.len(),
            self.wf(),
    {
        proof {
            use_type_invariant(self);
        }
        index_map_len(&self.entries)
    }

    /// Whether a record is held under the id.
    pub fn contains(&self, tx: u32) -> (present: bool)
        ensures
            present == has_key(self@, tx),
    {
        index_map_contains_key(&self.entries, tx)
    }

    /// The record held under the id.
    pub fn get(&self, tx: u32) -> (record: Option<TxRecord>)
        ensures
            record == lookup(self@, tx),
    {
        index_map_get(&self.entries, tx)
    }

    /// Sets the status of the record held under the id; does nothing where
    /// there is none. Returns whether there was one.
    pub fn set_status(&mut self, tx: u32, status: TrxStatus) -> (found: bool)
        ensures
            found == has_key(old(self)@, tx),
            final(self)@ == with_status(old(self)@, tx, status),
            final(self).spec_capacity() == old(self).spec_capacity(),
            final(self).wf(),
        no_unwind
    {
        proof {
            use_type_invariant(&*self);
        }
        match index_map_get_mut(&mut self.entries, tx) {
            Some(record) => {
                record.status = status;
                true
            },
            None => false,
        }
    }

    /// Stores the record under the id. Where the log is full the oldest
    /// record is evicted first. An id not yet held goes last; one already
    /// held keeps its place and takes the new record.
    pub fn insert(&mut self, tx: u32, record: TxRecord)
        ensures
            final(self)@ == stored(make_room(old(self)@, old(self).spec_capacity()), tx, record),
            final(self).spec_capacity() == old(self).spec_capacity(),
            final(self).wf(),
        no_unwind
    {
        proof {
            use_type_invariant(&*self);
        }
        if let Some(max) = self.capacity {
            if index_map_len(&self.entries) >= max {
                let _ = index_map_shift_remove_index(&mut self.entries, 0);
                proof {
                    if old(self)@.len() > 0 {
                        assert(old(self)@.remove(0) =~= old(self)@.skip(1));
                    }
                }
            }
        }
        let ghost room = self@;
        proof {
            lemma_make_room(old(self)@, self.capacity);
        }
        let _ = index_map_insert(&mut self.entries, tx, record);
        proof {
            lemma_stored(room, tx, record);
        }
    }
}

/// Making room keeps the keys distinct and leaves the log short of full.
pub proof fn lemma_make_room(entries: Seq<(u32, TxRecord)>, capacity: Option<usize>)
    requires
        distinct_keys(entries),
        within_capacity(entries.len(), capacity),
    ensures
        distinct_keys(make_room(entries, capacity)),
        capacity matches Some(c) ==> make_room(entries, capacity).len() < c || make_room(
            entries,
            capacity,
        ).len() == 0,
{
    let room = make_room(entries, capacity);
    if room != entries {
        assert forall|i: int, j: int| 0 <= i < j < room.len() implies (#[trigger] room[i]).0 != (
        #[trigger] room[j]).0 by {
            assert(room[i] == entries[i + 1]);
            assert(room[j] == entries[j + 1]);
        }
    }
}

/// Storing a record keeps the keys distinct and lengthens the log by at most
/// one.
pub proof fn lemma_stored(entries: Seq<(u32, TxRecord)>, tx: u32, record: TxRecord)
    requires
        distinct_keys(entries),
    ensures
        distinct_keys(stored(entries, tx, record)),
        stored(entries, tx, record).len() == if has_key(entries, tx) {
            entries.len()
        } else {
            entries.len() + 1
        },
        lookup(stored(entries, tx, record), tx) == Some(record),
{
    let after = stored(entries, tx, record);
    if has_key(entries, tx) {
        let p = position(entries, tx);
        assert(0 <= p < entries.len() && entries[p].0 == tx);
        assert forall|i: int, j: int| 0 <= i < j < after.len() implies (#[trigger] after[i]).0 != (
        #[trigger] after[j]).0 by {
            assert(after[i].0 == entries[i].0);
            assert(after[j].0 == entries[j].0);
        }
        assert(after[p] == (tx, record));
        lemma_position_unique(after, p);
    } else {
        let last = entries.len() as int;
        assert forall|i: int, j: int| 0 <= i < j < after.len() implies (#[trigger] after[i]).0 != (
        #[trigger] after[j]).0 by {
            if j == last {
                assert(after[i] == entries[i]);
                assert(entries[i].0 != tx);
            } else {
                assert(after[i] == entries[i]);
                assert(after[j] == entries[j]);
            }
        }
        assert(after[last] == (tx, record));
        lemma_position_unique(after, last);
    }
}

/// Making room loses at most the oldest record: what is found afterwards
/// was there before, unchanged, and what is no longer found was the oldest.
pub proof fn lemma_lookup_make_room(entries: Seq<(u32, TxRecord)>, capacity: Option<usize>, tx: u32)
    requires
        distinct_keys(entries),
    ensures
        has_key(make_room(entries, capacity), tx) ==> lookup(make_room(entries, capacity), tx)
            == lookup(entries, tx) && has_key(entries, tx),
        has_key(entries, tx) && !has_key(make_room(entries, capacity), tx) ==> capacity is Some
            && entries.len() > 0 && entries[0].0 == tx,
        capacity is None ==> make_room(entries, capacity) == entries,
{
    let room = make_room(entries, capacity);
    if room != entries && has_key(room, tx) {
        let p = position(room, tx);
        assert(0 <= p < room.len() && room[p].0 == tx);
        assert(room[p] == entries[p + 1]);
        lemma_position_unique(entries, p + 1);
    }
    if has_key(entries, tx) && !has_key(room, tx) {
        let p = position(entries, tx);
        assert(0 <= p < entries.len() && entries[p].0 == tx);
        if p > 0 {
            assert(room[p - 1] == entries[p]);
        }
    }
}

/// Storing a record under one id leaves what is found under any other.
pub proof fn lemma_lookup_stored(
    entries: Seq<(u32, TxRecord)>,
    stored_tx: u32,
    record: TxRecord,
    tx: u32,
)
    requires
        distinct_keys(entries),
        tx != stored_tx,
    ensures
        lookup(stored(entries, stored_tx, record), tx) == lookup(entries, tx),
        has_key(stored(entries, stored_tx, record), tx) == has_key(entries, tx),
{
    let after = stored(entries, stored_tx, record);
    lemma_stored(entries, stored_tx, record);
    if has_key(entries, tx) {
        let p = position(entries, tx);
        assert(0 <= p < entries.len() && entries[p].0 == tx);
        assert(after[p] == entries[p]);
        lemma_position_unique(after, p);
    }
    if has_key(after, tx) {
        let p = position(after, tx);
        assert(0 <= p < after.len() && after[p].0 == tx);
        assert(p < entries.len() && entries[p] == after[p]);
        lemma_position_unique(entries, p);
    }
}

/// Setting a status keeps the ids distinct, the length and every id's place;
/// it changes the status of the record under the id and nothing else.
pub proof fn lemma_with_status(
    entries: Seq<(u32, TxRecord)>,
    changed_tx: u32,
    status: TrxStatus,
    tx: u32,
)
    requires
        distinct_keys(entries),
    ensures
        distinct_keys(with_status(entries, changed_tx, status)),
        with_status(entries, changed_tx, status).len() == entries.len(),
        has_key(with_status(entries, changed_tx, status), tx) == has_key(entries, tx),
        lookup(with_status(entries, changed_tx, status), tx) == match lookup(entries, tx) {
            Some(record) => if tx == changed_tx {
                Some(TxRecord { status, ..record })
            } else {
                Some(record)
            },
            None => None,
        },
{
    let after = with_status(entries, changed_tx, status);
    if has_key(entries, changed_tx) {
        let c = position(entries, changed_tx);
        assert(0 <= c < entries.len() && entries[c].0 == changed_tx);
        assert forall|i: int, j: int| 0 <= i < j < after.len() implies (#[trigger] after[i]).0 != (
        #[trigger] after[j]).0 by {
            assert(after[i].0 == entries[i].0);
            assert(after[j].0 == entries[j].0);
        }
        if has_key(entries, tx) {
            let p = position(entries, tx);
            assert(0 <= p < entries.len() && entries[p].0 == tx);
            assert(after[p].0 == tx);
            lemma_position_unique(after, p);
            lemma_position_unique(entries, p);
            lemma_position_unique(entries, c);
        }
        if has_key(after, tx) {
            let p = position(after, tx);
            assert(0 <= p < after.len() && after[p].0 == tx);
            assert(entries[p].0 == tx);
        }
    }
}

} // verus!
