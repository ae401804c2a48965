use member_cache::pool::SlotPool;
use member_cache::resolver::find_member;
use member_cache::runtime::{ClassRef, Runtime, WeakRef};
use member_cache::slot::{CacheEntry, Slot, SLOT_CAPACITY};

#[test]
fn empty_slot_and_pool_start_empty() {
    let slot = Slot::new();
    assert_eq!(slot.len(), 0);
    let pool = SlotPool::new();
    assert_eq!(pool.free_count(), 0);
}

#[test]
fn probe_finds_what_insert_stored() {
    let rt = Runtime { live: vec![1] };
    let class = ClassRef { id: 1 };
    let mut slot = Slot::new();
    slot.insert_entry(CacheEntry { class: WeakRef { id: 1 }, types_id: 2, name_id: 3, handle: 4 });
    assert_eq!(slot.len(), 1);
    assert_eq!(slot.probe(2, 3, &class, &rt), Some(4));
    // A different key misses and changes nothing.
    assert_eq!(slot.probe(2, 9, &class, &rt), None);
    assert_eq!(slot.len(), 1);
}

#[test]
fn slot_capacity_is_bounded_and_lru_leaves_first() {
    let rt = Runtime { live: vec![1] };
    let class = ClassRef { id: 1 };
    let mut slot = Slot::new();
    for name_id in 0..SLOT_CAPACITY as u64 {
        slot.insert_entry(CacheEntry {
            class: WeakRef { id: 1 },
            types_id: 9,
            name_id,
            handle: 100 + name_id,
        });
    }
    assert_eq!(slot.len(), SLOT_CAPACITY);

    // Touch the least recently used entry (name 0): it moves to the
    // front, leaving name 1 as the eviction candidate.
    assert_eq!(slot.probe(9, 0, &class, &rt), Some(100));
    slot.insert_entry(CacheEntry {
        class: WeakRef { id: 1 },
        types_id: 9,
        name_id: 999,
        handle: 42,
    });
    assert_eq!(slot.len(), SLOT_CAPACITY);
    assert_eq!(slot.probe(9, 1, &class, &rt), None);
    assert_eq!(slot.probe(9, 0, &class, &rt), Some(100));
    assert_eq!(slot.probe(9, 999, &class, &rt), Some(42));
}

#[test]
fn stale_entry_is_treated_as_a_miss() {
    let rt = Runtime { live: vec![2] };
    let class = ClassRef { id: 1 };
    let mut slot = Slot::new();
    // The entry's owning class (id 1) is no longer live.
    slot.insert_entry(CacheEntry { class: WeakRef { id: 1 }, types_id: 2, name_id: 3, handle: 4 });
    assert_eq!(slot.probe(2, 3, &class, &rt), None);
}

#[test]
fn lease_and_release_balance() {
    let mut pool = SlotPool::new();

    // Leasing from an empty pool allocates rather than waits.
    let slot = pool.lease();
    assert_eq!(pool.free_count(), 0);
    pool.release(slot);
    assert_eq!(pool.free_count(), 1);

    // A released slot is recycled, not duplicated.
    let slot = pool.lease();
    assert_eq!(pool.free_count(), 0);
    pool.release(slot);
    assert_eq!(pool.free_count(), 1);
}

#[test]
fn resolutions_recycle_one_slot() {
    let rt = Runtime { live: vec![5] };
    let class = ClassRef { id: 5 };
    let mut pool = SlotPool::new();
    for name_id in 0..10 {
        let r = find_member(&mut pool, &rt, &class, 1, name_id, |cached: Option<u64>| {
            Ok((cached.unwrap_or(7), 7))
        });
        assert_eq!(r, Ok(7));
        // Every resolution returned its leased slot: no leak, no loss.
        assert_eq!(pool.free_count(), 1);
    }
}
