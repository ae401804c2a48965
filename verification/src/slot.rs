//! One shard of the member resolution cache.
//!
//! A slot is a fixed-capacity least-recently-used set of resolved
//! members. Its storage is uluru's array-backed `LRUCache`; everything
//! the resolver needs of it is stated over the sequence of entries in
//! most-recently-used-first order. A slot is only ever manipulated by
//! the thread that leased it, so no synchronization appears here.

use vstd::prelude::*;

use crate::runtime::{ClassRef, Runtime, WeakRef};

verus! {

/// How many entries one slot holds before it evicts.
pub const SLOT_CAPACITY: usize = 128;

/// One resolved member, as cached in a slot.
#[derive(Clone, Copy)]
pub struct CacheEntry {
    /// Weak identity of the owning class; never keeps it alive.
    pub class: WeakRef,
    /// Process-stable token of the static (kind, argument types,
    /// return type) combination the member was resolved under.
    pub types_id: u64,
    /// Interned identity of the member name.
    pub name_id: u64,
    /// The raw native handle the host runtime's lookup returned.
    pub handle: u64,
}

/// uluru's array-backed LRU cache, declared so a slot can hold one.
#[verifier::external_type_specification]
#[verifier::external_body]
#[verifier::reject_recursive_types(T)]
pub struct ExLRUCache<T, const N: usize>(uluru::LRUCache<T, N>);

/// The entries a cache holds, most recently used first.
pub uninterp spec fn lru_seq(c: uluru::LRUCache<CacheEntry, 128>) -> Seq<CacheEntry>;

/// Does a cached entry answer a probe for (`types_id`, `name_id`,
/// `class`)? It must match the types token and the name identity, and
/// its weak class identity must still refer to the same live object as
/// the caller's reference.
pub open spec fn entry_matches(
    e: CacheEntry,
    types_id: u64,
    name_id: u64,
    class: ClassRef,
    live: Seq<u64>,
) -> bool {
    &&& e.types_id == types_id
    &&& e.name_id == name_id
    &&& e.class.id == class.id
    &&& live.contains(e.class.id)
}

/// The position of the first entry, in most-recently-used-first order,
/// that answers the probe; -1 when none does.
pub open spec fn hit_index(
    s: Seq<CacheEntry>,
    types_id: u64,
    name_id: u64,
    class: ClassRef,
    live: Seq<u64>,
) -> int
    decreases s.len(),
{
    if s.len() == 0 {
        -1
    } else if entry_matches(s[0], types_id, name_id, class, live) {
        0
    } else {
        let rest = hit_index(s.drop_first(), types_id, name_id, class, live);
        if rest < 0 {
            -1
        } else {
            rest + 1
        }
    }
}

/// The entry sequence after a hit at position `i` is touched: the hit
/// entry moves to the front, the rest keep their order.
pub open spec fn touched(s: Seq<CacheEntry>, i: int) -> Seq<CacheEntry> {
    s.remove(i).insert(0, s[i])
}

/// The entry sequence after an insertion: the new entry becomes the
/// front; when the slot is full, the least recently used entry leaves.
pub open spec fn inserted(s: Seq<CacheEntry>, e: CacheEntry) -> Seq<CacheEntry> {
    if s.len() < SLOT_CAPACITY {
        s.insert(0, e)
    } else {
        s.drop_last().insert(0, e)
    }
}

/// Exec mirror of `entry_matches`.
fn entry_matches_exec(
    e: &CacheEntry,
    types_id: u64,
    name_id: u64,
    class: &ClassRef,
    rt: &Runtime,
) -> (r: bool)
    ensures
        r == entry_matches(*e, types_id, name_id, *class, rt@),
{
    e.types_id == types_id && e.name_id == name_id && rt.is_same_object(&e.class, class)
}

/// Relies on uluru::LRUCache::new: creates an empty cache.
#[verifier::external_body]
fn lru_new() -> (c: uluru::LRUCache<CacheEntry, 128>)
    ensures
        lru_seq(c) == Seq::<CacheEntry>::empty(),
{
    uluru::LRUCache::new()
}

/// Relies on uluru::LRUCache::find: scans in most-recently-used-first
/// order, returns the first entry satisfying the predicate and marks it
/// most recently used; on a miss the cache is unchanged.
#[verifier::external_body]
fn lru_find(
    c: &mut uluru::LRUCache<CacheEntry, 128>,
    types_id: u64,
    name_id: u64,
    class: &ClassRef,
    rt: &Runtime,
) -> (r: Option<u64>)
    ensures
        ({
            let s = lru_seq(*old(c));
            let i = hit_index(s, types_id, name_id, *class, rt@);
            if i < 0 {
                r == None::<u64> && lru_seq(*final(c)) == s
            } else {
                r == Some(s[i].handle) && lru_seq(*final(c)) == touched(s, i)
            }
        }),
{
    c.find(|e: &CacheEntry| entry_matches_exec(e, types_id, name_id, class, rt)).map(
        |e: &mut CacheEntry| e.handle,
    )
}

/// Relies on uluru::LRUCache::insert: the entry becomes the front
/// (most recently used); a full cache evicts and returns the back
/// (least recently used) entry.
#[verifier::external_body]
fn lru_insert(c: &mut uluru::LRUCache<CacheEntry, 128>, e: CacheEntry) -> (evicted: Option<
    CacheEntry,
>)
    requires
        lru_seq(*old(c)).len() <= SLOT_CAPACITY,
    ensures
        ({
            let s = lru_seq(*old(c));
            lru_seq(*final(c)) == inserted(s, e) && (if s.len() < SLOT_CAPACITY {
                evicted == None::<CacheEntry>
            } else {
                evicted == Some(s.last())
            })
        }),
{
    c.insert(e)
}

/// Relies on uluru::LRUCache::len: the number of entries held.
#[verifier::external_body]
fn lru_len(c: &uluru::LRUCache<CacheEntry, 128>) -> (n: usize)
    ensures
        n == lru_seq(*c).len(),
{
    c.len()
}

/// One independently leased shard of the resolution cache.
pub struct Slot {
    entries: uluru::LRUCache<CacheEntry, 128>,
}

impl View for Slot {
    type V = Seq<CacheEntry>;

    closed spec fn view(&self) -> Seq<CacheEntry> {
        lru_seq(self.entries)
    }
}

impl Slot {
    /// A slot never holds more entries than its capacity.
    pub open spec fn wf(self) -> bool {
        self@.len() <= SLOT_CAPACITY
    }

    /// An empty slot.
    pub fn new() -> (s: Slot)
        ensures
            s@ == Seq::<CacheEntry>::empty(),
            s.wf(),
    {
        Slot { entries: lru_new() }
    }

    /// The number of entries currently cached.
    pub fn len(&self) -> (n: usize)
        ensures
            n == self@.len(),
    {
        lru_len(&self.entries)
    }

    /// Probe for a member. On a hit the cached raw handle comes back
    /// and the entry becomes the most recently used; on a miss the slot
    /// is unchanged.
    pub fn probe(&mut self, types_id: u64, name_id: u64, class: &ClassRef, rt: &Runtime) -> (r:
        Option<u64>)
        requires
            old(self).wf(),
        ensures
            final(self).wf(),
            ({
                let s = old(self)@;
                let i = hit_index(s, types_id, name_id, *class, rt@);
                if i < 0 {
                    r == None::<u64> && final(self)@ == s
                } else {
                    r == Some(s[i].handle) && final(self)@ == touched(s, i)
                }
            }),
    {
        proof {
            lemma_hit_index_in_range(old(self)@, types_id, name_id, *class, rt@);
        }
        lru_find(&mut self.entries, types_id, name_id, class, rt)
    }

    /// Record a freshly resolved member as the most recently used
    /// entry, evicting the least recently used one when full.
    pub fn insert_entry(&mut self, e: CacheEntry)
        requires
            old(self).wf(),
        ensures
            final(self).wf(),
            final(self)@ == inserted(old(self)@, e),
    {
        let _evicted = lru_insert(&mut self.entries, e);
    }
}

/// `hit_index` finds exactly the first matching entry: it is -1 when
/// and only when no entry answers the probe, and otherwise points at
/// the matching entry closest to the most recently used end.
pub proof fn lemma_hit_index_characterizes(
    s: Seq<CacheEntry>,
    types_id: u64,
    name_id: u64,
    class: ClassRef,
    live: Seq<u64>,
)
    ensures
        hit_index(s, types_id, name_id, class, live) == -1 <==> (forall|j: int|
            0 <= j < s.len() ==> !entry_matches(#[trigger] s[j], types_id, name_id, class, live)),
        hit_index(s, types_id, name_id, class, live) >= 0 ==> ({
            let i = hit_index(s, types_id, name_id, class, live);
            &&& i < s.len()
            &&& entry_matches(s[i], types_id, name_id, class, live)
            &&& forall|j: int|
                0 <= j < i ==> !entry_matches(#[trigger] s[j], types_id, name_id, class, live)
        }),
    decreases s.len(),
{
    if s.len() == 0 {
    } else if entry_matches(s[0], types_id, name_id, class, live) {
    } else {
        let rest = s.drop_first();
        lemma_hit_index_characterizes(rest, types_id, name_id, class, live);
        assert(forall|j: int| 1 <= j < s.len() ==> #[trigger] s[j] == rest[j - 1]);
    }
}

/// `hit_index` stays within the sequence: it is -1 or a valid position.
pub proof fn lemma_hit_index_in_range(
    s: Seq<CacheEntry>,
    types_id: u64,
    name_id: u64,
    class: ClassRef,
    live: Seq<u64>,
)
    ensures
        -1 <= hit_index(s, types_id, name_id, class, live) < s.len(),
    decreases s.len(),
{
    if s.len() != 0 && !entry_matches(s[0], types_id, name_id, class, live) {
        lemma_hit_index_in_range(s.drop_first(), types_id, name_id, class, live);
    }
}

} // verus!
