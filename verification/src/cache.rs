//! The result cache: a bounded mapping from catalog position to a resized
//! image, with pop-on-read semantics.
//!
//! The entries live in a `moka::sync::Cache`. That cache bounds itself only in
//! a best-effort way, so the order in which positions were inserted is kept
//! here as well and the least recently inserted entry is removed by hand as
//! soon as the capacity would be exceeded. The store is therefore never asked
//! to hold more than its capacity and never evicts on its own.

use moka::sync::Cache;
use std::collections::hash_map::RandomState;
use vstd::prelude::*;

verus! {

#[verifier::external_type_specification]
#[verifier::external_body]
#[verifier::reject_recursive_types(K)]
#[verifier::reject_recursive_types(V)]
#[verifier::reject_recursive_types(S)]
pub struct ExCache<K, V, S>(Cache<K, V, S>);

/// A resized image: interleaved RGBA8 pixels, width and height.
pub type ImageData = (Vec<u8>, u32, u32);

/// The store that holds the cached images by catalog position.
pub type Store = Cache<usize, ImageData, RandomState>;

/// What a store holds, as a mathematical map.
pub type Entries = Map<usize, (Seq<u8>, u32, u32)>;

/// The entries that a store holds: for each position that a lookup would
/// find, the pixels, width and height kept under it.
pub uninterp spec fn stored(store: Store) -> Entries;

/// The capacity that a store was built with.
pub uninterp spec fn store_limit(store: Store) -> u64;

/// `moka::sync::Cache::builder().max_capacity(..).build()`: a new store with
/// the given capacity and no entries.
#[verifier::external_body]
fn store_new(limit: u64) -> (store: Store)
    ensures
        stored(store) == Entries::empty(),
        store_limit(store) == limit,
{
    Cache::builder().max_capacity(limit).build()
}

/// `moka::sync::Cache::contains_key`: whether the store holds a value for the
/// position. The call is a plain lookup and changes nothing.
#[verifier::external_body]
fn store_contains(store: &Store, index: usize) -> (found: bool)
    ensures
        found == stored(*store).contains_key(index),
{
    store.contains_key(&index)
}

/// `moka::sync::Cache::remove`: discards the value kept under the position and
/// returns it if there was one. Nothing else leaves the store: it evicts only
/// to make room, and `store_insert` never lets it run short of room.
#[verifier::external_body]
fn store_remove(store: &mut Store, index: usize) -> (taken: Option<ImageData>)
    ensures
        match taken {
            Some(value) => {
                &&& stored(*old(store)).contains_key(index)
                &&& value@ == stored(*old(store))[index]
            },
            None => !stored(*old(store)).contains_key(index),
        },
        stored(*final(store)) == stored(*old(store)).remove(index),
        store_limit(*final(store)) == store_limit(*old(store)),
{
    store.remove(&index)
}

/// `moka::sync::Cache::insert`: puts the value under the position, replacing
/// what was there. It is called only where the position is present already
/// or the store holds fewer entries than its capacity: with room for it the
/// store admits the entry outright and evicts nothing. A store built with
/// capacity zero ignores the call, so that case is left out.
#[verifier::external_body]
fn store_insert(store: &mut Store, index: usize, value: ImageData)
    requires
        store_limit(*old(store)) > 0,
        stored(*old(store)).dom().finite(),
        stored(*old(store)).contains_key(index) || stored(*old(store)).dom().len() < store_limit(
            *old(store),
        ),
    ensures
        stored(*final(store)) == stored(*old(store)).insert(index, value@),
        store_limit(*final(store)) == store_limit(*old(store)),
{
    store.insert(index, value)
}

/// The sequence without its occurrence of `index`.
pub open spec fn without(order: Seq<usize>, index: usize) -> Seq<usize> {
    if order.contains(index) {
        order.remove(order.index_of(index))
    } else {
        order
    }
}

/// Removing one position from a sequence without repetitions leaves a
/// sequence without repetitions that lacks exactly that element.
proof fn lemma_remove_distinct(order: Seq<usize>, at: int)
    requires
        order.no_duplicates(),
        0 <= at < order.len(),
    ensures
        order.remove(at).no_duplicates(),
        order.remove(at).len() == order.len() - 1,
        order.remove(at) == without(order, order[at]),
        !order.remove(at).contains(order[at]),
        forall|x: usize| x != order[at] ==> (order.remove(at).contains(x) <==> order.contains(x)),
{
    let rest = order.remove(at);
    assert(order.contains(order[at]));
    assert(order.index_of(order[at]) == at);
    assert forall|i: int, j: int| 0 <= i < rest.len() && 0 <= j < rest.len() && i != j implies rest[i]
        != rest[j] by {
        let oi = if i < at { i } else { i + 1 };
        let oj = if j < at { j } else { j + 1 };
        assert(rest[i] == order[oi] && rest[j] == order[oj]);
    }
    assert forall|x: usize| x != order[at] implies (rest.contains(x) <==> order.contains(x)) by {
        if rest.contains(x) {
            let i = choose|i: int| 0 <= i < rest.len() && rest[i] == x;
            let oi = if i < at { i } else { i + 1 };
            assert(order[oi] == x);
        }
        if order.contains(x) {
            let i = choose|i: int| 0 <= i < order.len() && order[i] == x;
            let ri = if i < at { i } else { i - 1 };
            assert(rest[ri] == x);
        }
    }
    if rest.contains(order[at]) {
        let i = choose|i: int| 0 <= i < rest.len() && rest[i] == order[at];
        let oi = if i < at { i } else { i + 1 };
        assert(order[oi] == order[at]);
    }
}

/// Appending an element that does not occur keeps a sequence free of
/// repetitions.
proof fn lemma_push_distinct(order: Seq<usize>, index: usize)
    requires
        order.no_duplicates(),
        !order.contains(index),
    ensures
        order.push(index).no_duplicates(),
        forall|x: usize| order.push(index).contains(x) <==> (order.contains(x) || x == index),
{
    let more = order.push(index);
    assert forall|i: int, j: int| 0 <= i < more.len() && 0 <= j < more.len() && i != j implies more[i]
        != more[j] by {
        if i < order.len() {
            assert(order.contains(more[i]));
        }
        if j < order.len() {
            assert(order.contains(more[j]));
        }
    }
    assert forall|x: usize| more.contains(x) <==> (order.contains(x) || x == index) by {
        if more.contains(x) {
            let i = choose|i: int| 0 <= i < more.len() && more[i] == x;
            if i < order.len() {
                assert(order[i] == x);
            }
        }
        if order.contains(x) {
            let i = choose|i: int| 0 <= i < order.len() && order[i] == x;
            assert(more[i] == x);
        }
        if x == index {
            assert(more[order.len() as int] == x);
        }
    }
}

/// A map whose keys all occur in a sequence has at most as many entries as
/// the sequence has elements.
proof fn lemma_entries_bounded(entries: Entries, order: Seq<usize>)
    requires
        forall|j: usize| entries.contains_key(j) ==> order.contains(j),
    ensures
        entries.dom().finite(),
        entries.dom().len() <= order.len(),
{
    order.lemma_cardinality_of_set();
    assert(entries.dom().subset_of(order.to_set())) by {
        assert forall|j: usize| entries.dom().contains(j) implies order.to_set().contains(j) by {
            assert(entries.contains_key(j));
        }
    }
    vstd::set_lib::lemma_len_subset(entries.dom(), order.to_set());
}

/// Where `index` stands in `order`, if it occurs.
fn position_of(order: &Vec<usize>, index: usize) -> (at: Option<usize>)
    ensures
        match at {
            Some(i) => i < order@.len() && order@[i as int] == index,
            None => !order@.contains(index),
        },
{
    let mut i: usize = 0;
    while i < order.len()
        invariant
            i <= order@.len(),
            forall|j: int| 0 <= j < i ==> order@[j] != index,
        decreases order@.len() - i,
    {
        if order[i] == index {
            return Some(i);
        }
        i = i + 1;
    }
    None
}

/// What taking `index` out of a cache owes: the image that was cached there
/// is handed out, if there was one, and afterwards the cache holds what it
/// held before but for that position.
pub open spec fn popped(
    before: Entries,
    after: Entries,
    index: usize,
    taken: Option<ImageData>,
) -> bool {
    &&& match taken {
        Some(value) => before.contains_key(index) && value@ == before[index],
        None => !before.contains_key(index),
    }
    &&& after == before.remove(index)
}

/// Inserting `index` into a cache with this eviction order and capacity
/// evicts the oldest position: the position is new and the cache is full.
pub open spec fn evicts(order: Seq<usize>, index: usize, capacity: nat) -> bool {
    capacity > 0 && !order.contains(index) && order.len() == capacity
}

/// The eviction order once room has been made for `index`: without `index`
/// itself and, where the insertion evicts, without the oldest position.
pub open spec fn evicting(order: Seq<usize>, index: usize, capacity: nat) -> Seq<usize> {
    if evicts(order, index, capacity) {
        order.remove(0)
    } else {
        without(order, index)
    }
}

/// What a cache holds after `value` was inserted under `index`: what it held
/// before, less the oldest position where the insertion evicts, with the
/// new image. A cache of capacity zero holds nothing, before and after.
pub open spec fn after_insert(
    before: Entries,
    order: Seq<usize>,
    capacity: nat,
    index: usize,
    value: (Seq<u8>, u32, u32),
) -> Entries {
    if capacity == 0 {
        before
    } else if evicts(order, index, capacity) {
        before.remove(order[0]).insert(index, value)
    } else {
        before.insert(index, value)
    }
}

/// A cached image is handed out once: after it has been taken out, taking
/// it out again finds nothing and changes nothing.
pub proof fn law_hit_is_consumed_once(
    first: Entries,
    second: Entries,
    third: Entries,
    index: usize,
    hit: Option<ImageData>,
    again: Option<ImageData>,
)
    requires
        popped(first, second, index, hit),
        popped(second, third, index, again),
    ensures
        again is None,
        third == second,
{
    assert(third =~= second);
}

/// An image that has just been cached is found, and taking it out hands out
/// that very image.
pub proof fn law_cached_image_is_found(
    before: Entries,
    order: Seq<usize>,
    capacity: nat,
    index: usize,
    value: (Seq<u8>, u32, u32),
    after: Entries,
    taken: Option<ImageData>,
)
    requires
        capacity > 0,
        popped(after_insert(before, order, capacity, index, value), after, index, taken),
    ensures
        after_insert(before, order, capacity, index, value).contains_key(index),
        taken matches Some(image) && image@ == value,
{
}

/// A cached image stays cached, unchanged, while other positions are taken
/// out or inserted, until an insertion finds the cache full and this image
/// to be the oldest.
pub proof fn law_cached_image_stays(
    before: Entries,
    order: Seq<usize>,
    capacity: nat,
    index: usize,
    other: usize,
    value: (Seq<u8>, u32, u32),
)
    requires
        before.contains_key(index),
        other != index,
        !(evicts(order, other, capacity) && order[0] == index),
    ensures
        before.remove(other).contains_key(index),
        before.remove(other)[index] == before[index],
        after_insert(before, order, capacity, other, value).contains_key(index),
        after_insert(before, order, capacity, other, value)[index] == before[index],
{
}

/// Only an insertion caches a position: one that is not cached stays so
/// while images are taken out and other positions are inserted.
pub proof fn law_absent_stays_absent(
    before: Entries,
    order: Seq<usize>,
    capacity: nat,
    index: usize,
    other: usize,
    value: (Seq<u8>, u32, u32),
)
    requires
        !before.contains_key(index),
        other != index,
    ensures
        !before.remove(other).contains_key(index),
        !after_insert(before, order, capacity, other, value).contains_key(index),
{
}

/// A bounded cache of resized images by catalog position. Reading an entry
/// removes it; inserting into a full cache first removes the entry that was
/// inserted longest ago.
///
/// The store belongs to the cache alone and is never cloned, so that nothing
/// else changes what it holds. To share a cache between threads, put it behind
/// a lock.
pub struct ResultCache {
    store: Store,
    /// The cached positions, least recently inserted first.
    order: Vec<usize>,
    capacity: usize,
}

impl ResultCache {
    /// The cached images by position.
    pub closed spec fn view(&self) -> Entries {
        stored(self.store)
    }

    /// The cached positions in eviction order, least recently inserted first.
    pub closed spec fn recency(&self) -> Seq<usize> {
        self.order@
    }

    /// The largest number of entries that the cache holds at any time.
    pub closed spec fn capacity(&self) -> nat {
        self.capacity as nat
    }

    /// The invariant of the cache: its eviction order names the cached
    /// positions, each once, and is no longer than the capacity.
    pub closed spec fn wf(&self) -> bool {
        &&& store_limit(self.store) == self.capacity
        &&& self.order@.no_duplicates()
        &&& self.order@.len() <= self.capacity
        &&& forall|j: usize| stored(self.store).contains_key(j) <==> self.order@.contains(j)
    }

    /// A cache never holds more entries than its capacity, and its eviction
    /// order names exactly the cached positions.
    pub proof fn lemma_bounded(&self)
        requires
            self.wf(),
        ensures
            self@.dom().finite(),
            self@.dom().len() <= self.capacity(),
            forall|j: usize| self@.contains_key(j) <==> self.recency().contains(j),
            self.recency().no_duplicates(),
            self.recency().len() <= self.capacity(),
    {
        lemma_entries_bounded(stored(self.store), self.order@);
    }

    /// An empty cache for at most `capacity` images.
    pub fn new(capacity: usize) -> (cache: ResultCache)
        ensures
            cache.wf(),
            cache@ == Entries::empty(),
            cache.recency() == Seq::<usize>::empty(),
            cache.capacity() == capacity,
    {
        ResultCache { store: store_new(capacity as u64), order: Vec::new(), capacity }
    }

    /// Whether an image is cached for the position. The cache is not changed.
    pub fn contains(&self, index: usize) -> (found: bool)
        ensures
            found == self@.contains_key(index),
    {
        store_contains(&self.store, index)
    }

    /// Takes the image cached for the position out of the cache, if there is
    /// one: a hit is consumed, and a second call finds nothing. Every other
    /// image stays cached.
    pub fn get_and_remove(&mut self, index: usize) -> (taken: Option<ImageData>)
        requires
            old(self).wf(),
        ensures
            final(self).wf(),
            final(self).capacity() == old(self).capacity(),
            popped(old(self)@, final(self)@, index, taken),
            final(self).recency() == without(old(self).recency(), index),
            final(self)@.dom().finite(),
            final(self)@.dom().len() <= final(self).capacity(),
    {
        let taken = store_remove(&mut self.store, index);
        let at = position_of(&self.order, index);
        if let Some(i) = at {
            proof {
                lemma_remove_distinct(self.order@, i as int);
            }
            self.order.remove(i);
        }
        proof {
            assert forall|j: usize| stored(self.store).contains_key(j) <==> self.order@.contains(
                j,
            ) by {
                if j != index {
                    assert(old(self)@.contains_key(j) <==> old(self).order@.contains(j));
                }
            }
            lemma_entries_bounded(stored(self.store), self.order@);
        }
        taken
    }

    /// Caches the image under the position, replacing what was cached there.
    /// If the position is new and the cache is full, the position inserted
    /// longest ago is evicted first; every other image stays cached. With
    /// capacity zero nothing is cached.
    pub fn insert(&mut self, index: usize, value: ImageData)
        requires
            old(self).wf(),
        ensures
            final(self).wf(),
            final(self).capacity() == old(self).capacity(),
            final(self)@ == after_insert(
                old(self)@,
                old(self).recency(),
                old(self).capacity(),
                index,
                value@,
            ),
            final(self).recency() == if old(self).capacity() == 0 {
                old(self).recency()
            } else {
                evicting(old(self).recency(), index, old(self).capacity()).push(index)
            },
            final(self)@.dom().finite(),
            final(self)@.dom().len() <= final(self).capacity(),
    {
        proof {
            lemma_entries_bounded(stored(self.store), self.order@);
        }
        if self.capacity == 0 {
            return ;
        }
        let at = position_of(&self.order, index);
        match at {
            Some(i) => {
                proof {
                    lemma_remove_distinct(self.order@, i as int);
                }
                self.order.remove(i);
            },
            None => {
                if self.order.len() == self.capacity {
                    let victim = self.order[0];
                    proof {
                        lemma_remove_distinct(self.order@, 0);
                    }
                    let _ = store_remove(&mut self.store, victim);
                    self.order.remove(0);
                    assert(!self.order@.contains(index));
                }
            },
        }
        let ghost room = self.order@;
        let ghost before = stored(self.store);
        proof {
            lemma_push_distinct(room, index);
            // Apart from `index` itself the store holds what the order names,
            // and the order is short of the capacity.
            assert forall|j: usize| j != index implies (before.contains_key(j) <==> room.contains(
                j,
            )) by {
                assert(old(self)@.contains_key(j) <==> old(self).order@.contains(j));
            }
            assert(room.len() < self.capacity);
            if !before.contains_key(index) {
                assert forall|j: usize| before.contains_key(j) implies room.contains(j) by {}
                lemma_entries_bounded(before, room);
            } else {
                assert(before.dom().finite());
            }
        }
        store_insert(&mut self.store, index, value);
        self.order.push(index);
        proof {
            assert forall|j: usize| stored(self.store).contains_key(j) <==> self.order@.contains(
                j,
            ) by {
                if j != index {
                    assert(before.contains_key(j) <==> room.contains(j));
                }
            }
            lemma_entries_bounded(stored(self.store), self.order@);
            assert(stored(self.store) =~= after_insert(
                old(self)@,
                old(self).order@,
                old(self).capacity as nat,
                index,
                value@,
            ));
        }
    }
}

} // verus!
