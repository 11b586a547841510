//! A store of bounded size that forgets the entry that was used least
//! recently when a new one needs its place.
//!
//! The order of use is kept in a linked hash map of the keys; the values
//! are kept beside it in a hash map.

use linked_hash_map::LinkedHashMap;
use std::collections::hash_map::Entry;
use std::collections::HashMap;
use vstd::prelude::*;
use vstd::std_specs::hash::OccupiedEntrySpecFns;

verus! {

broadcast use vstd::std_specs::hash::group_hash_axioms;

/// `linked_hash_map::LinkedHashMap`, a hash map that keeps its keys in an
/// order. Nothing is known of what is inside but through [`key_order`].
#[verifier::external_type_specification]
#[verifier::external_body]
#[verifier::reject_recursive_types(K)]
#[verifier::reject_recursive_types(V)]
#[verifier::reject_recursive_types(S)]
pub struct ExLinkedHashMap<K, V, S>(LinkedHashMap<K, V, S>);

/// The keys of a linked hash map in the order in which it holds them, from
/// its front to its back.
pub uninterp spec fn key_order(map: LinkedHashMap<u64, ()>) -> Seq<u64>;

/// The order of keys after `key` was used: `key` stands at the back, and
/// the other keys keep their order.
pub open spec fn moved_to_back(order: Seq<u64>, key: u64) -> Seq<u64> {
    if order.contains(key) {
        order.remove(order.index_of(key)).push(key)
    } else {
        order.push(key)
    }
}

/// The order of keys after a look at `key` that counts as a use: as
/// [`moved_to_back`] where the key is there, unchanged where it is not.
pub open spec fn refreshed(order: Seq<u64>, key: u64) -> Seq<u64> {
    if order.contains(key) {
        moved_to_back(order, key)
    } else {
        order
    }
}

/// `LinkedHashMap::new` makes a map without keys.
#[verifier::external_body]
fn order_new() -> (map: LinkedHashMap<u64, ()>)
    ensures
        key_order(map) == Seq::<u64>::empty(),
{
    LinkedHashMap::new()
}

/// `LinkedHashMap::len` is the number of keys.
#[verifier::external_body]
fn order_len(map: &LinkedHashMap<u64, ()>) -> (len: usize)
    ensures
        len == key_order(*map).len(),
{
    map.len()
}

/// `LinkedHashMap::contains_key` says whether the key is among the keys.
#[verifier::external_body]
fn order_contains(map: &LinkedHashMap<u64, ()>, key: &u64) -> (found: bool)
    ensures
        found == key_order(*map).contains(*key),
{
    map.contains_key(key)
}

/// `LinkedHashMap::get_refresh` moves the key to the back if it is there,
/// and says whether it is.
#[verifier::external_body]
fn order_refresh(map: &mut LinkedHashMap<u64, ()>, key: &u64) -> (found: bool)
    ensures
        found == key_order(*old(map)).contains(*key),
        key_order(*final(map)) == refreshed(key_order(*old(map)), *key),
{
    map.get_refresh(key).is_some()
}

/// `LinkedHashMap::pop_front` takes the key at the front out and returns
/// it; an empty map stays empty.
#[verifier::external_body]
fn order_pop_front(map: &mut LinkedHashMap<u64, ()>) -> (front: Option<u64>)
    ensures
        match front {
            Some(key) => key_order(*old(map)).len() > 0 && key == key_order(*old(map))[0]
                && key_order(*final(map)) == key_order(*old(map)).drop_first(),
            None => key_order(*old(map)).len() == 0 && key_order(*final(map)) == key_order(
                *old(map),
            ),
        },
{
    map.pop_front().map(|entry| entry.0)
}

/// `LinkedHashMap::insert` puts a new key at the back, and moves a key
/// that is there already to the back.
#[verifier::external_body]
fn order_insert(map: &mut LinkedHashMap<u64, ()>, key: u64)
    ensures
        key_order(*final(map)) == moved_to_back(key_order(*old(map)), key),
{
    map.insert(key, ());
}

/// Moving a key to the back of an order without duplicates gives an order
/// without duplicates that holds the old keys and the key, with the key last.
pub proof fn lemma_moved_to_back(order: Seq<u64>, key: u64)
    requires
        order.no_duplicates(),
    ensures
        moved_to_back(order, key).no_duplicates(),
        moved_to_back(order, key).to_set() == order.to_set().insert(key),
        moved_to_back(order, key).len() == if order.contains(key) {
            order.len()
        } else {
            order.len() + 1
        },
        moved_to_back(order, key).last() == key,
        forall|a: u64, b: u64|
            a != key && b != key && comes_before(order, a, b) ==> comes_before(
                moved_to_back(order, key),
                a,
                b,
            ),
        forall|a: u64| a != key && order.contains(a) ==> comes_before(
            moved_to_back(order, key),
            a,
            key,
        ),
{
    let moved = moved_to_back(order, key);
    if order.contains(key) {
        let i = order.index_of(key);
        let rest = order.remove(i);
        order.remove_ensures(i);
        assert forall|a: int, b: int|
            0 <= a < moved.len() && 0 <= b < moved.len() && a != b implies moved[a]
            != moved[b] by {
            let back = |j: int|
                if j < i {
                    j
                } else {
                    j + 1
                };
            if a < rest.len() {
                assert(moved[a] == order[back(a)]);
            }
            if b < rest.len() {
                assert(moved[b] == order[back(b)]);
            }
        }
        assert forall|x: u64| moved.to_set().contains(x) <==> order.to_set().insert(
            key,
        ).contains(x) by {
            if moved.contains(x) {
                let j = choose|j: int| 0 <= j < moved.len() && moved[j] == x;
                if j < rest.len() {
                    if j < i {
                        assert(order[j] == x);
                    } else {
                        assert(order[j + 1] == x);
                    }
                }
            }
            if order.contains(x) && x != key {
                let j = choose|j: int| 0 <= j < order.len() && order[j] == x;
                if j < i {
                    assert(moved[j] == x);
                } else {
                    assert(moved[j - 1] == x);
                }
            }
            if x == key {
                assert(moved[moved.len() - 1] == x);
            }
        }
        assert(moved.to_set() =~= order.to_set().insert(key));
        assert forall|a: u64, b: u64|
            a != key && b != key && comes_before(order, a, b) implies comes_before(
            moved,
            a,
            b,
        ) by {
            let (ia, ib) = choose|ia: int, ib: int|
                0 <= ia < ib < order.len() && order[ia] == a && order[ib] == b;
            let ja = if ia < i {
                ia
            } else {
                ia - 1
            };
            let jb = if ib < i {
                ib
            } else {
                ib - 1
            };
            assert(moved[ja] == a && moved[jb] == b && ja < jb);
        }
        assert forall|a: u64| a != key && order.contains(a) implies comes_before(
            moved,
            a,
            key,
        ) by {
            let ia = choose|ia: int| 0 <= ia < order.len() && order[ia] == a;
            let ja = if ia < i {
                ia
            } else {
                ia - 1
            };
            assert(moved[ja] == a && moved[moved.len() - 1] == key);
        }
    } else {
        assert forall|x: u64| moved.to_set().contains(x) <==> order.to_set().insert(
            key,
        ).contains(x) by {
            if moved.contains(x) {
                let j = choose|j: int| 0 <= j < moved.len() && moved[j] == x;
                if j < order.len() {
                    assert(order[j] == x);
                }
            }
            if order.contains(x) {
                let j = choose|j: int| 0 <= j < order.len() && order[j] == x;
                assert(moved[j] == x);
            }
            if x == key {
                assert(moved[moved.len() - 1] == x);
            }
        }
        assert(moved.to_set() =~= order.to_set().insert(key));
        assert forall|a: u64, b: u64|
            a != key && b != key && comes_before(order, a, b) implies comes_before(
            moved,
            a,
            b,
        ) by {
            let (ia, ib) = choose|ia: int, ib: int|
                0 <= ia < ib < order.len() && order[ia] == a && order[ib] == b;
            assert(moved[ia] == a && moved[ib] == b);
        }
        assert forall|a: u64| a != key && order.contains(a) implies comes_before(
            moved,
            a,
            key,
        ) by {
            let ia = choose|ia: int| 0 <= ia < order.len() && order[ia] == a;
            assert(moved[ia] == a && moved[moved.len() - 1] == key);
        }
    }
}

/// `a` stands before `b` in the order: `a` was used less recently.
pub open spec fn comes_before(order: Seq<u64>, a: u64, b: u64) -> bool {
    exists|i: int, j: int| 0 <= i < j < order.len() && order[i] == a && order[j] == b
}

/// Taking the first key out of an order without duplicates gives an order
/// without duplicates that holds the other keys.
pub proof fn lemma_drop_first(order: Seq<u64>)
    requires
        order.no_duplicates(),
        order.len() > 0,
    ensures
        order.drop_first().no_duplicates(),
        order.drop_first().to_set() == order.to_set().remove(order[0]),
        order.drop_first().len() == order.len() - 1,
{
    let rest = order.drop_first();
    assert forall|x: u64| rest.to_set().contains(x) <==> order.to_set().remove(
        order[0],
    ).contains(x) by {
        if rest.contains(x) {
            let j = choose|j: int| 0 <= j < rest.len() && rest[j] == x;
            assert(order[j + 1] == x);
        }
        if order.contains(x) && x != order[0] {
            let j = choose|j: int| 0 <= j < order.len() && order[j] == x;
            assert(rest[j - 1] == x);
        }
    }
    assert(rest.to_set() =~= order.to_set().remove(order[0]));
}

/// The order of keys after room was made for one more: with `capacity`
/// keys or more, the key at the front is gone.
pub open spec fn with_room(order: Seq<u64>, capacity: int) -> Seq<u64> {
    if order.len() >= capacity && order.len() > 0 {
        order.drop_first()
    } else {
        order
    }
}

/// The values after room was made for one more: with `capacity` keys or
/// more, the value of the key at the front is gone.
pub open spec fn values_with_room<V>(
    entries: Map<u64, V>,
    order: Seq<u64>,
    capacity: int,
) -> Map<u64, V> {
    if order.len() >= capacity && order.len() > 0 {
        entries.remove(order[0])
    } else {
        entries
    }
}

/// The order of keys after a value was stored for `key`: room is made, and
/// the key stands at the back. A store without capacity holds nothing.
pub open spec fn order_after_put(order: Seq<u64>, capacity: int, key: u64) -> Seq<u64> {
    if capacity <= 0 {
        order
    } else {
        moved_to_back(with_room(order, capacity), key)
    }
}

/// The order of keys after values were stored for each of `keys` in turn.
pub open spec fn order_after_puts(order: Seq<u64>, capacity: int, keys: Seq<u64>) -> Seq<u64>
    decreases keys.len(),
{
    if keys.len() == 0 {
        order
    } else {
        order_after_put(
            order_after_puts(order, capacity, keys.drop_last()),
            capacity,
            keys.last(),
        )
    }
}

/// An empty store that takes no more keys than it can hold, all different,
/// holds them all, in the order in which they came.
pub proof fn lemma_puts_within_capacity(capacity: int, keys: Seq<u64>)
    requires
        keys.no_duplicates(),
        keys.len() <= capacity,
    ensures
        order_after_puts(Seq::empty(), capacity, keys) == keys,
    decreases keys.len(),
{
    if keys.len() > 0 {
        let before = keys.drop_last();
        lemma_puts_within_capacity(capacity, before);
        if before.contains(keys.last()) {
            let j = choose|j: int| 0 <= j < before.len() && before[j] == keys.last();
            assert(keys[j] == keys[keys.len() - 1]);
        }
        assert(before.push(keys.last()) =~= keys);
    }
}

/// An empty store that takes one key more than it can hold, all different
/// and none of them used in between, holds all but the first: the keys that
/// came last, as many as it can hold.
pub proof fn lemma_overflow_keeps_newest(capacity: int, keys: Seq<u64>)
    requires
        capacity >= 1,
        keys.no_duplicates(),
        keys.len() == capacity + 1,
    ensures
        order_after_puts(Seq::empty(), capacity, keys) == keys.drop_first(),
        !order_after_puts(Seq::empty(), capacity, keys).contains(keys[0]),
        forall|i: int| 1 <= i < keys.len() ==> order_after_puts(
            Seq::empty(),
            capacity,
            keys,
        ).contains(#[trigger] keys[i]),
{
    let before = keys.drop_last();
    lemma_puts_within_capacity(capacity, before);
    let room = with_room(before, capacity);
    assert(room == before.drop_first());
    if room.contains(keys.last()) {
        let j = choose|j: int| 0 <= j < room.len() && room[j] == keys.last();
        assert(keys[j + 1] == keys[keys.len() - 1]);
    }
    let after = order_after_puts(Seq::empty(), capacity, keys);
    assert(after =~= keys.drop_first());
    if after.contains(keys[0]) {
        let j = choose|j: int| 0 <= j < after.len() && after[j] == keys[0];
        assert(keys[j + 1] == keys[0]);
    }
    assert forall|i: int| 1 <= i < keys.len() implies after.contains(#[trigger] keys[i]) by {
        assert(after[i - 1] == keys[i]);
    }
}

/// In a full store, a look at the key that was used least recently, if
/// it counts as a use, saves that key: the next new key pushes out the key
/// that was second in line instead.
pub proof fn lemma_refresh_protects_oldest(order: Seq<u64>, capacity: int, key: u64)
    requires
        capacity >= 2,
        order.no_duplicates(),
        order.len() == capacity,
        !order.contains(key),
    ensures
        order_after_put(refreshed(order, order[0]), capacity, key).contains(order[0]),
        !order_after_put(refreshed(order, order[0]), capacity, key).contains(order[1]),
        !order_after_put(order, capacity, key).contains(order[0]),
        order_after_put(refreshed(order, order[0]), capacity, key).len() == capacity,
{
    let oldest = order[0];
    assert(order.contains(oldest));
    lemma_moved_to_back(order, oldest);
    let looked = refreshed(order, oldest);
    let i = order.index_of(oldest);
    assert(i == 0);
    assert(looked =~= order.drop_first().push(oldest));
    lemma_drop_first(looked);
    let room = with_room(looked, capacity);
    assert(room == looked.drop_first());
    lemma_moved_to_back(room, key);
    let after = order_after_put(looked, capacity, key);
    assert(room[room.len() - 1] == oldest);
    assert(room.contains(oldest));
    assert(after.to_set().contains(oldest));
    assert(looked[0] == order[1]);
    assert(!room.to_set().contains(order[1]));
    assert(order[1] != key) by {
        assert(order.contains(order[1]));
    }
    assert(!after.to_set().contains(order[1]));
    lemma_drop_first(order);
    lemma_moved_to_back(order.drop_first(), key);
    let plain = order_after_put(order, capacity, key);
    assert(!order.drop_first().to_set().contains(oldest));
    assert(!plain.to_set().contains(oldest));
    if room.contains(key) {
        assert(room.to_set().contains(key));
        assert(looked.to_set().contains(key));
        assert(order.to_set().contains(key));
    }
}

/// A store of at most `capacity` values by key, which forgets the value
/// that was used least recently when a new one needs its place.
pub struct LRUStorage<V> {
    order: LinkedHashMap<u64, ()>,
    values: HashMap<u64, V>,
    capacity: usize,
}

impl<V> LRUStorage<V> {
    /// The keys in the order of their last use: the key at the front was
    /// used least recently, the key at the back most recently.
    pub closed spec fn order(&self) -> Seq<u64> {
        key_order(self.order)
    }

    /// The values by key.
    pub closed spec fn entries(&self) -> Map<u64, V> {
        self.values@
    }

    /// The number of entries that the store can hold.
    pub closed spec fn capacity(&self) -> int {
        self.capacity as int
    }

    /// The store's invariant: every key stands once in the order, the keys
    /// in the order are those that have a value, and there are no more of
    /// them than the capacity allows.
    pub open spec fn wf(&self) -> bool {
        &&& self.order().no_duplicates()
        &&& self.order().to_set() == self.entries().dom()
        &&& self.order().len() <= self.capacity()
    }

    /// An empty store that can hold `capacity` entries.
    pub fn new(capacity: usize) -> (store: Self)
        ensures
            store.wf(),
            store.capacity() == capacity,
            store.order() == Seq::<u64>::empty(),
            store.entries() == Map::<u64, V>::empty(),
    {
        let store = LRUStorage { order: order_new(), values: HashMap::new(), capacity };
        assert(store.order().to_set() =~= store.entries().dom());
        store
    }

    /// Whether the store holds a value for the key.
    pub fn contains(&self, key: &u64) -> (found: bool)
        requires
            self.wf(),
        ensures
            found == self.entries().contains_key(*key),
            found == self.order().contains(*key),
    {
        assert(self.order().to_set().contains(*key) == self.order().contains(*key));
        order_contains(&self.order, key)
    }

    /// The number of entries.
    pub fn len(&self) -> (len: usize)
        requires
            self.wf(),
        ensures
            len == self.order().len(),
            len == self.entries().len(),
            len <= self.capacity(),
    {
        proof {
            self.order().unique_seq_to_set();
        }
        order_len(&self.order)
    }

    /// The value for the key, if there is one. This does not count as a use.
    pub fn access(&self, key: &u64) -> (value: Option<&V>)
        ensures
            match value {
                Some(v) => self.entries().contains_key(*key) && *v == self.entries()[*key],
                None => !self.entries().contains_key(*key),
            },
    {
        self.values.get(key)
    }

    /// The value for the key, if there is one; the look counts as a use of
    /// the key.
    pub fn access_refresh(&mut self, key: &u64) -> (value: Option<&V>)
        requires
            old(self).wf(),
        ensures
            final(self).wf(),
            final(self).capacity() == old(self).capacity(),
            final(self).entries() == old(self).entries(),
            final(self).order() == refreshed(old(self).order(), *key),
            match value {
                Some(v) => old(self).entries().contains_key(*key) && *v == old(self).entries()[*key],
                None => !old(self).entries().contains_key(*key),
            },
    {
        proof {
            lemma_moved_to_back(self.order(), *key);
            assert(self.order().to_set().contains(*key) == self.order().contains(*key));
        }
        order_refresh(&mut self.order, key);
        assert(self.order().to_set() =~= old(self).order().to_set());
        self.values.get(key)
    }

    /// The value for the key, if there is one, to be changed in place. This
    /// does not count as a use.
    pub fn access_mut(&mut self, key: &u64) -> (value: Option<&mut V>)
        requires
            old(self).wf(),
        ensures
            final(self).wf(),
            final(self).capacity() == old(self).capacity(),
            final(self).order() == old(self).order(),
            match value {
                Some(v) => {
                    &&& old(self).entries().contains_key(*key)
                    &&& *v == old(self).entries()[*key]
                    &&& final(self).entries() == old(self).entries().insert(*key, *final(v))
                },
                None => {
                    &&& !old(self).entries().contains_key(*key)
                    &&& final(self).entries() == old(self).entries()
                },
            },
    {
        self.value_mut(key)
    }

    /// The value for the key, if there is one, to be changed in place; the
    /// look counts as a use of the key.
    pub fn access_refresh_mut(&mut self, key: &u64) -> (value: Option<&mut V>)
        requires
            old(self).wf(),
        ensures
            final(self).wf(),
            final(self).capacity() == old(self).capacity(),
            final(self).order() == refreshed(old(self).order(), *key),
            match value {
                Some(v) => {
                    &&& old(self).entries().contains_key(*key)
                    &&& *v == old(self).entries()[*key]
                    &&& final(self).entries() == old(self).entries().insert(*key, *final(v))
                },
                None => {
                    &&& !old(self).entries().contains_key(*key)
                    &&& final(self).entries() == old(self).entries()
                },
            },
    {
        proof {
            lemma_moved_to_back(self.order(), *key);
            assert(self.order().to_set().contains(*key) == self.order().contains(*key));
        }
        order_refresh(&mut self.order, key);
        assert(self.order().to_set() =~= old(self).order().to_set());
        self.value_mut(key)
    }

    /// The value for the key in the hash map, to be changed in place.
    fn value_mut(&mut self, key: &u64) -> (value: Option<&mut V>)
        ensures
            final(self).capacity() == old(self).capacity(),
            final(self).order() == old(self).order(),
            final(self).entries().dom() == old(self).entries().dom(),
            match value {
                Some(v) => {
                    &&& old(self).entries().contains_key(*key)
                    &&& *v == old(self).entries()[*key]
                    &&& final(self).entries() == old(self).entries().insert(*key, *final(v))
                },
                None => {
                    &&& !old(self).entries().contains_key(*key)
                    &&& final(self).entries() == old(self).entries()
                },
            },
    {
        match self.values.entry(*key) {
            Entry::Occupied(entry) => {
                assert(old(self).entries().insert(*key, entry.value()).dom() =~= old(
                    self,
                ).entries().dom());
                Some(entry.into_mut())
            },
            Entry::Vacant(_) => {
                assert(old(self).entries().remove(*key) =~= old(self).entries());
                None
            },
        }
    }

    /// Makes room for one more entry: with as many entries as the capacity
    /// allows, the one that was used least recently goes.
    fn remove_lru(&mut self)
        requires
            old(self).wf(),
        ensures
            final(self).capacity() == old(self).capacity(),
            final(self).order() == with_room(old(self).order(), old(self).capacity()),
            final(self).entries() == values_with_room(
                old(self).entries(),
                old(self).order(),
                old(self).capacity(),
            ),
            final(self).order().no_duplicates(),
            final(self).order().to_set() == final(self).entries().dom(),
            old(self).capacity() > 0 ==> final(self).order().len() < old(self).capacity(),
    {
        if order_len(&self.order) >= self.capacity {
            proof {
                if self.order().len() > 0 {
                    lemma_drop_first(self.order());
                }
            }
            match order_pop_front(&mut self.order) {
                Some(key) => {
                    self.values.remove(&key);
                },
                None => {},
            }
        }
    }

    /// The value for the key, made by `create` if there is none.
    ///
    /// Where the store holds a value for the key, the look counts as a use
    /// and `create` is not called. Otherwise `create` is called; if it makes
    /// a value, room is made for it as [`LRUStorage::put`] does, and it is
    /// stored as the entry used most recently; if it makes none, the store
    /// stays as it is. A store without capacity holds nothing and calls
    /// nothing.
    pub fn access_refresh_mut_with_create<F: FnOnce() -> Option<V>>(
        &mut self,
        key: &u64,
        create: F,
    ) -> (value: Option<&mut V>)
        requires
            old(self).wf(),
            !old(self).entries().contains_key(*key) && old(self).capacity() > 0 ==> call_requires(
                create,
                (),
            ),
        ensures
            final(self).wf(),
            final(self).capacity() == old(self).capacity(),
            old(self).entries().contains_key(*key) ==> {
                &&& value matches Some(v)
                &&& *v == old(self).entries()[*key]
                &&& final(self).order() == moved_to_back(old(self).order(), *key)
                &&& final(self).entries() == old(self).entries().insert(*key, *final(v))
            },
            !old(self).entries().contains_key(*key) && old(self).capacity() == 0 ==> {
                &&& value is None
                &&& final(self).order() == old(self).order()
                &&& final(self).entries() == old(self).entries()
            },
            !old(self).entries().contains_key(*key) && old(self).capacity() > 0 ==> match value {
                Some(v) => {
                    &&& call_ensures(create, (), Some(*v))
                    &&& final(self).order() == moved_to_back(
                        with_room(old(self).order(), old(self).capacity()),
                        *key,
                    )
                    &&& final(self).entries() == values_with_room(
                        old(self).entries(),
                        old(self).order(),
                        old(self).capacity(),
                    ).insert(*key, *final(v))
                },
                None => {
                    &&& call_ensures(create, (), None::<V>)
                    &&& final(self).order() == old(self).order()
                    &&& final(self).entries() == old(self).entries()
                },
            },
    {
        proof {
            lemma_moved_to_back(self.order(), *key);
            assert(self.order().to_set().contains(*key) == self.order().contains(*key));
        }
        if order_refresh(&mut self.order, key) {
            assert(self.order().to_set() =~= old(self).order().to_set());
            return self.value_mut(key);
        }
        if self.capacity == 0 {
            return None;
        }
        match create() {
            Some(value) => {
                self.remove_lru();
                proof {
                    lemma_moved_to_back(self.order(), *key);
                }
                order_insert(&mut self.order, *key);
                match self.values.entry(*key) {
                    Entry::Occupied(mut entry) => {
                        entry.insert(value);
                        Some(entry.into_mut())
                    },
                    Entry::Vacant(entry) => Some(entry.insert(value)),
                }
            },
            None => None,
        }
    }

    /// Stores a value for the key as the entry used most recently. With as
    /// many entries as the capacity allows, the one that was used least
    /// recently goes first, whether or not the key had a value before. A store
    /// without capacity holds nothing.
    pub fn put(&mut self, key: u64, value: V)
        requires
            old(self).wf(),
        ensures
            final(self).wf(),
            final(self).capacity() == old(self).capacity(),
            final(self).order() == order_after_put(old(self).order(), old(self).capacity(), key),
            final(self).entries() == if old(self).capacity() == 0 {
                old(self).entries()
            } else {
                values_with_room(
                    old(self).entries(),
                    old(self).order(),
                    old(self).capacity(),
                ).insert(key, value)
            },
    {
        if self.capacity == 0 {
            return ;
        }
        self.remove_lru();
        proof {
            lemma_moved_to_back(self.order(), key);
        }
        order_insert(&mut self.order, key);
        self.values.insert(key, value);
    }
}

} // verus!
