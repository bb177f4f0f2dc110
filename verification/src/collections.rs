//! Read views: cloneable handles that query the current snapshot.
//!
//! Every query copies the reference to the snapshot that the cell holds at that
//! moment and asks that one snapshot, so an answer never mixes two generations.
//! Which generation it is depends on what has been published by then; the
//! contracts therefore say that the answer is the right one for some snapshot
//! that the cell admits. The functions that take a snapshot say what the answer is
//! for a given one.
//!
//! A query needs a snapshot. `contains`, `len`, `is_empty` and `get` are for
//! views whose cell can never be found empty; asked of an empty cell they stop
//! the program. The `try_` forms are for every view: they return `None` where
//! the cell is still empty. `get_read_lock` hands out the slot as it is.

use crate::holder::Holder;
use std::collections::{HashMap, HashSet};
use std::hash::Hash;
use std::sync::Arc;
use vstd::prelude::*;
use vstd::std_specs::hash::*;

verus! {

broadcast use vstd::std_specs::hash::group_hash_axioms;

/// Whether the cell admits a snapshot whose collection meets `sees`.
pub open spec fn observed<C>(holder: Holder<C>, sees: spec_fn(C) -> bool) -> bool {
    exists|version: u128, collection: C| #[trigger]
        holder.admits(Some((version, collection))) && sees(collection)
}

/// A snapshot that was read from the cell is one that the cell admits.
proof fn lemma_observed<C>(holder: Holder<C>, slot: &Option<(u128, C)>, sees: spec_fn(C) -> bool)
    requires
        holder.admits(*slot),
        slot is Some,
        sees((slot->0).1),
    ensures
        observed(holder, sees),
{
    let snapshot = slot->0;
    assert(*slot == Some((snapshot.0, snapshot.1)));
    assert(holder.admits(Some((snapshot.0, snapshot.1))));
}

/// The value that `map` holds for `key`, if any.
pub open spec fn lookup<K, V>(map: Map<K, V>, key: K) -> Option<V> {
    if map.contains_key(key) {
        Some(map[key])
    } else {
        None
    }
}

/// What the program stops with when a collection is read from an empty slot.
pub const NON_RUNNING: &'static str = "Attempt to read collection from non-running update service";

/// The collection of a slot that holds a snapshot.
pub fn collection_of<C>(slot: &Option<(u128, C)>) -> (collection: &C)
    requires
        slot is Some,
    ensures
        *collection == (slot->0).1,
{
    let snapshot = slot.as_ref().expect(NON_RUNNING);
    &snapshot.1
}

/// The version of a slot that holds a snapshot.
pub fn version_of<C>(slot: &Option<(u128, C)>) -> (version: u128)
    requires
        slot is Some,
    ensures
        version == (slot->0).0,
{
    let snapshot = slot.as_ref().expect(NON_RUNNING);
    snapshot.0
}

/// Whether the set of a snapshot holds `val`.
pub fn set_contains<T: Eq + Hash>(slot: &Option<(u128, HashSet<T>)>, val: &T) -> (found: bool)
    requires
        slot is Some,
    ensures
        obeys_key_model::<T>() ==> found == (slot->0).1@.contains(*val),
{
    collection_of(slot).contains(val)
}

/// The number of items in the set of a snapshot.
pub fn set_len<T>(slot: &Option<(u128, HashSet<T>)>) -> (count: usize)
    requires
        slot is Some,
    ensures
        obeys_key_model::<T>() ==> count == (slot->0).1@.len(),
{
    collection_of(slot).len()
}

/// Whether the set of a snapshot has no items.
pub fn set_is_empty<T>(slot: &Option<(u128, HashSet<T>)>) -> (empty: bool)
    requires
        slot is Some,
    ensures
        empty == (slot->0).1@.is_empty(),
{
    collection_of(slot).is_empty()
}

/// The value that the map of a snapshot holds for `key`: a handle to the stored
/// value, not a copy of it.
pub fn map_get<K: Eq + Hash, V>(slot: &Option<(u128, HashMap<K, Arc<V>>)>, key: &K) -> (found:
    Option<Arc<V>>)
    requires
        slot is Some,
    ensures
        obeys_key_model::<K>() ==> found == lookup((slot->0).1@, *key),
{
    match collection_of(slot).get(key) {
        Some(value) => Some(value.clone()),
        None => None,
    }
}

/// The number of entries in the map of a snapshot.
pub fn map_len<K, V>(slot: &Option<(u128, HashMap<K, Arc<V>>)>) -> (count: usize)
    requires
        slot is Some,
    ensures
        obeys_key_model::<K>() ==> count == (slot->0).1@.len(),
{
    collection_of(slot).len()
}

/// Whether the map of a snapshot has no entries.
pub fn map_is_empty<K, V>(slot: &Option<(u128, HashMap<K, Arc<V>>)>) -> (empty: bool)
    requires
        slot is Some,
    ensures
        empty == (slot->0).1@.is_empty(),
{
    collection_of(slot).is_empty()
}

/// A read view of a set that is replaced as a whole from time to time.
#[verifier::reject_recursive_types(T)]
pub struct UpdatingSet<T: Eq + Hash + Send + Sync> {
    backing: Holder<HashSet<T>>,
}

impl<T: Eq + Hash + Send + Sync> UpdatingSet<T> {
    /// The cell that the view reads.
    pub closed spec fn backing(&self) -> Holder<HashSet<T>> {
        self.backing
    }

    /// A view of the set in `backing`.
    pub fn new(backing: Holder<HashSet<T>>) -> (view: UpdatingSet<T>)
        ensures
            view.backing() == backing,
    {
        UpdatingSet { backing }
    }

    /// Whether the current set holds `val`. For a view whose cell is seeded; see
    /// [`UpdatingSet::try_contains`] for any view.
    pub fn contains(&self, val: &T) -> (found: bool)
        requires
            self.backing().seeded(),
        ensures
            observed(
                self.backing(),
                |set: HashSet<T>| obeys_key_model::<T>() ==> found == set@.contains(*val),
            ),
    {
        let current = self.get_read_lock();
        let found = set_contains(&*current, val);
        proof {
            lemma_observed(
                self.backing(),
                &*current,
                |set: HashSet<T>| obeys_key_model::<T>() ==> found == set@.contains(*val),
            );
        }
        found
    }

    /// The number of items in the current set. For a view whose cell is seeded;
    /// see [`UpdatingSet::try_len`] for any view.
    pub fn len(&self) -> (count: usize)
        requires
            self.backing().seeded(),
        ensures
            observed(
                self.backing(),
                |set: HashSet<T>| obeys_key_model::<T>() ==> count == set@.len(),
            ),
    {
        let current = self.get_read_lock();
        let count = set_len(&*current);
        proof {
            lemma_observed(
                self.backing(),
                &*current,
                |set: HashSet<T>| obeys_key_model::<T>() ==> count == set@.len(),
            );
        }
        count
    }

    /// Whether the current set has no items. For a view whose cell is seeded; see
    /// [`UpdatingSet::try_is_empty`] for any view.
    pub fn is_empty(&self) -> (empty: bool)
        requires
            self.backing().seeded(),
        ensures
            observed(self.backing(), |set: HashSet<T>| empty == set@.is_empty()),
    {
        let current = self.get_read_lock();
        let empty = set_is_empty(&*current);
        proof {
            lemma_observed(
                self.backing(),
                &*current,
                |set: HashSet<T>| empty == set@.is_empty(),
            );
        }
        empty
    }

    /// Whether the current set holds `val`, or `None` while no snapshot was
    /// published yet.
    pub fn try_contains(&self, val: &T) -> (answer: Option<bool>)
        ensures
            answer is None ==> self.backing().admits(None),
            answer matches Some(found) ==> observed(
                self.backing(),
                |set: HashSet<T>| obeys_key_model::<T>() ==> found == set@.contains(*val),
            ),
    {
        let current = self.get_read_lock();
        if current.is_none() {
            return None;
        }
        let found = set_contains(&*current, val);
        proof {
            lemma_observed(
                self.backing(),
                &*current,
                |set: HashSet<T>| obeys_key_model::<T>() ==> found == set@.contains(*val),
            );
        }
        Some(found)
    }

    /// The number of items in the current set, or `None` while no snapshot was
    /// published yet.
    pub fn try_len(&self) -> (answer: Option<usize>)
        ensures
            answer is None ==> self.backing().admits(None),
            answer matches Some(count) ==> observed(
                self.backing(),
                |set: HashSet<T>| obeys_key_model::<T>() ==> count == set@.len(),
            ),
    {
        let current = self.get_read_lock();
        if current.is_none() {
            return None;
        }
        let count = set_len(&*current);
        proof {
            lemma_observed(
                self.backing(),
                &*current,
                |set: HashSet<T>| obeys_key_model::<T>() ==> count == set@.len(),
            );
        }
        Some(count)
    }

    /// Whether the current set has no items, or `None` while no snapshot was
    /// published yet.
    pub fn try_is_empty(&self) -> (answer: Option<bool>)
        ensures
            answer is None ==> self.backing().admits(None),
            answer matches Some(empty) ==> observed(
                self.backing(),
                |set: HashSet<T>| empty == set@.is_empty(),
            ),
    {
        let current = self.get_read_lock();
        if current.is_none() {
            return None;
        }
        let empty = set_is_empty(&*current);
        proof {
            lemma_observed(self.backing(), &*current, |set: HashSet<T>| empty == set@.is_empty());
        }
        Some(empty)
    }

    /// The slot as it is now: the current snapshot, or nothing if none was
    /// published yet. The lock is held only to copy the reference.
    pub fn get_read_lock(&self) -> (current: Arc<Option<(u128, HashSet<T>)>>)
        ensures
            self.backing().admits(*current),
    {
        self.backing.read()
    }
}

impl<T: Eq + Hash + Send + Sync> Clone for UpdatingSet<T> {
    /// A second view of the same cell.
    fn clone(&self) -> (twin: UpdatingSet<T>)
        ensures
            twin.backing() == self.backing(),
    {
        UpdatingSet { backing: self.backing.clone() }
    }
}

/// A read view of a map that is replaced as a whole from time to time.
#[verifier::reject_recursive_types(K)]
#[verifier::reject_recursive_types(V)]
pub struct UpdatingMap<K: Eq + Hash, V> {
    backing: Holder<HashMap<K, Arc<V>>>,
}

impl<K: Eq + Hash, V> UpdatingMap<K, V> {
    /// The cell that the view reads.
    pub closed spec fn backing(&self) -> Holder<HashMap<K, Arc<V>>> {
        self.backing
    }

    /// A view of the map in `backing`.
    pub fn new(backing: Holder<HashMap<K, Arc<V>>>) -> (view: UpdatingMap<K, V>)
        ensures
            view.backing() == backing,
    {
        UpdatingMap { backing }
    }
}

impl<K: Eq + Hash + Send + Sync, V: Send + Sync> UpdatingMap<K, V> {
    /// The value that the current map holds for `key`: a handle to the stored
    /// value, which stays valid when the map is replaced. For a view whose cell
    /// is seeded; see [`UpdatingMap::try_get`] for any view.
    pub fn get(&self, key: &K) -> (found: Option<Arc<V>>)
        requires
            self.backing().seeded(),
        ensures
            observed(
                self.backing(),
                |map: HashMap<K, Arc<V>>| obeys_key_model::<K>() ==> found == lookup(map@, *key),
            ),
    {
        let current = self.get_read_lock();
        let found = map_get(&*current, key);
        proof {
            lemma_observed(
                self.backing(),
                &*current,
                |map: HashMap<K, Arc<V>>| obeys_key_model::<K>() ==> found == lookup(map@, *key),
            );
        }
        found
    }

    /// The number of entries in the current map. For a view whose cell is
    /// seeded; see [`UpdatingMap::try_len`] for any view.
    pub fn len(&self) -> (count: usize)
        requires
            self.backing().seeded(),
        ensures
            observed(
                self.backing(),
                |map: HashMap<K, Arc<V>>| obeys_key_model::<K>() ==> count == map@.len(),
            ),
    {
        let current = self.get_read_lock();
        let count = map_len(&*current);
        proof {
            lemma_observed(
                self.backing(),
                &*current,
                |map: HashMap<K, Arc<V>>| obeys_key_model::<K>() ==> count == map@.len(),
            );
        }
        count
    }

    /// Whether the current map has no entries. For a view whose cell is seeded;
    /// see [`UpdatingMap::try_is_empty`] for any view.
    pub fn is_empty(&self) -> (empty: bool)
        requires
            self.backing().seeded(),
        ensures
            observed(self.backing(), |map: HashMap<K, Arc<V>>| empty == map@.is_empty()),
    {
        let current = self.get_read_lock();
        let empty = map_is_empty(&*current);
        proof {
            lemma_observed(
                self.backing(),
                &*current,
                |map: HashMap<K, Arc<V>>| empty == map@.is_empty(),
            );
        }
        empty
    }

    /// The value that the current map holds for `key`, or `None` while no
    /// snapshot was published yet.
    pub fn try_get(&self, key: &K) -> (answer: Option<Option<Arc<V>>>)
        ensures
            answer is None ==> self.backing().admits(None),
            answer matches Some(found) ==> observed(
                self.backing(),
                |map: HashMap<K, Arc<V>>| obeys_key_model::<K>() ==> found == lookup(map@, *key),
            ),
    {
        let current = self.get_read_lock();
        if current.is_none() {
            return None;
        }
        let found = map_get(&*current, key);
        proof {
            lemma_observed(
                self.backing(),
                &*current,
                |map: HashMap<K, Arc<V>>| obeys_key_model::<K>() ==> found == lookup(map@, *key),
            );
        }
        Some(found)
    }

    /// The number of entries in the current map, or `None` while no snapshot was
    /// published yet.
    pub fn try_len(&self) -> (answer: Option<usize>)
        ensures
            answer is None ==> self.backing().admits(None),
            answer matches Some(count) ==> observed(
                self.backing(),
                |map: HashMap<K, Arc<V>>| obeys_key_model::<K>() ==> count == map@.len(),
            ),
    {
        let current = self.get_read_lock();
        if current.is_none() {
            return None;
        }
        let count = map_len(&*current);
        proof {
            lemma_observed(
                self.backing(),
                &*current,
                |map: HashMap<K, Arc<V>>| obeys_key_model::<K>() ==> count == map@.len(),
            );
        }
        Some(count)
    }

    /// Whether the current map has no entries, or `None` while no snapshot was
    /// published yet.
    pub fn try_is_empty(&self) -> (answer: Option<bool>)
        ensures
            answer is None ==> self.backing().admits(None),
            answer matches Some(empty) ==> observed(
                self.backing(),
                |map: HashMap<K, Arc<V>>| empty == map@.is_empty(),
            ),
    {
        let current = self.get_read_lock();
        if current.is_none() {
            return None;
        }
        let empty = map_is_empty(&*current);
        proof {
            lemma_observed(
                self.backing(),
                &*current,
                |map: HashMap<K, Arc<V>>| empty == map@.is_empty(),
            );
        }
        Some(empty)
    }

    /// The slot as it is now: the current snapshot, or nothing if none was
    /// published yet. The lock is held only to copy the reference.
    pub fn get_read_lock(&self) -> (current: Arc<Option<(u128, HashMap<K, Arc<V>>)>>)
        ensures
            self.backing().admits(*current),
    {
        self.backing.read()
    }
}

impl<K: Eq + Hash, V> Clone for UpdatingMap<K, V> {
    /// A second view of the same cell.
    fn clone(&self) -> (twin: UpdatingMap<K, V>)
        ensures
            twin.backing() == self.backing(),
    {
        UpdatingMap { backing: self.backing.clone() }
    }
}

/// A kind of read view. It ties the collection that a processor yields to the
/// collection that the cell stores for the view.
pub trait UpdatingObject: Sized {
    /// What a processor yields.
    type Parsed;

    /// What the cell holds.
    type Stored;

    /// Whether `stored` is what the cell stores for `parsed`.
    spec fn stores(parsed: Self::Parsed, stored: Self::Stored) -> bool;

    /// The cell that the view reads.
    spec fn cell(&self) -> Holder<Self::Stored>;

    /// Makes a processed collection ready to be stored.
    fn adopt(parsed: Self::Parsed) -> (stored: Self::Stored)
        ensures
            Self::stores(parsed, stored),
    ;

    /// A view of the collection in `backing`.
    fn over(backing: Holder<Self::Stored>) -> (view: Self)
        ensures
            view.cell() == backing,
    ;
}

impl<T: Eq + Hash + Send + Sync> UpdatingObject for UpdatingSet<T> {
    type Parsed = HashSet<T>;

    type Stored = HashSet<T>;

    open spec fn stores(parsed: HashSet<T>, stored: HashSet<T>) -> bool {
        stored == parsed
    }

    open spec fn cell(&self) -> Holder<HashSet<T>> {
        self.backing()
    }

    fn adopt(parsed: HashSet<T>) -> (stored: HashSet<T>) {
        parsed
    }

    fn over(backing: Holder<HashSet<T>>) -> (view: UpdatingSet<T>) {
        UpdatingSet::new(backing)
    }
}

/// Whether `shared` holds the entries of `plain`, each value behind a shared
/// reference.
pub open spec fn shares_values<K, V>(plain: Map<K, V>, shared: Map<K, Arc<V>>) -> bool {
    &&& shared.dom() == plain.dom()
    &&& forall|key: K| #[trigger] plain.contains_key(key) ==> *shared[key] == plain[key]
}

/// `Vec::from_iter` on a `HashMap`: the entries of the map, in an order of the
/// map's own choosing. Every entry of the vector is an entry of the map, and every
/// key of the map has an entry in the vector.
#[verifier::external_body]
fn entries_of<K, V>(map: HashMap<K, V>) -> (entries: Vec<(K, V)>)
    ensures
        obeys_key_model::<K>() ==> {
            &&& forall|i: int|
                0 <= i < entries@.len() ==> map@.contains_key((#[trigger] entries@[i]).0)
                    && map@[entries@[i].0] == entries@[i].1
            &&& forall|key: K| #[trigger]
                map@.contains_key(key) ==> exists|i: int|
                    0 <= i < entries@.len() && (#[trigger] entries@[i]).0 == key
        },
{
    Vec::from_iter(map)
}

/// Puts every value of `map` behind a shared reference of its own.
pub fn share_values<K: Eq + Hash, V>(map: HashMap<K, V>) -> (shared: HashMap<K, Arc<V>>)
    ensures
        obeys_key_model::<K>() ==> shares_values(map@, shared@),
{
    let mut entries = entries_of(map);
    let ghost all = entries@;
    let mut shared: HashMap<K, Arc<V>> = HashMap::new();
    while entries.len() > 0
        invariant
            entries@.len() <= all.len(),
            entries@ == all.take(entries@.len() as int),
            obeys_key_model::<K>() ==> {
                &&& forall|i: int|
                    0 <= i < all.len() ==> map@.contains_key((#[trigger] all[i]).0) && map@[all[i].0]
                        == all[i].1
                &&& forall|key: K| #[trigger]
                    shared@.contains_key(key) ==> map@.contains_key(key) && *shared@[key]
                        == map@[key]
                &&& forall|i: int|
                    entries@.len() <= i < all.len() ==> shared@.contains_key((#[trigger] all[i]).0)
            },
        decreases entries@.len(),
    {
        let ghost before = entries@;
        let entry = entries.pop();
        match entry {
            Some((key, value)) => {
                proof {
                    assert(before[before.len() - 1] == all[before.len() - 1]);
                    assert(entries@ =~= all.take(entries@.len() as int));
                }
                shared.insert(key, Arc::new(value));
            },
            None => {},
        }
    }
    proof {
        if obeys_key_model::<K>() {
            assert forall|key: K| map@.contains_key(key) implies shared@.contains_key(key) by {
                let i = choose|i: int| 0 <= i < all.len() && (#[trigger] all[i]).0 == key;
                assert(shared@.contains_key(all[i].0));
            }
            assert(shared@.dom() =~= map@.dom());
        }
    }
    shared
}

impl<K: Eq + Hash + Send + Sync, V: Send + Sync> UpdatingObject for UpdatingMap<K, V> {
    type Parsed = HashMap<K, V>;

    type Stored = HashMap<K, Arc<V>>;

    open spec fn stores(parsed: HashMap<K, V>, stored: HashMap<K, Arc<V>>) -> bool {
        obeys_key_model::<K>() ==> shares_values(parsed@, stored@)
    }

    open spec fn cell(&self) -> Holder<HashMap<K, Arc<V>>> {
        self.backing()
    }

    fn adopt(parsed: HashMap<K, V>) -> (stored: HashMap<K, Arc<V>>) {
        share_values(parsed)
    }

    fn over(backing: Holder<HashMap<K, Arc<V>>>) -> (view: UpdatingMap<K, V>) {
        UpdatingMap::new(backing)
    }
}

} // verus!
