use member_cache::pool::SlotPool;
use member_cache::resolver::{
    find_field, find_member, find_member_uncached, find_method, PendingException,
};
use member_cache::runtime::{ClassRef, Runtime};
use member_cache::signature::Signature;
use std::cell::Cell;

fn live_runtime(ids: &[u64]) -> Runtime {
    Runtime { live: ids.to_vec() }
}

#[test]
fn second_resolution_hits_the_cache() {
    let rt = live_runtime(&[5]);
    let class = ClassRef { id: 5 };
    let mut pool = SlotPool::new();
    let mut lookups = 0u32;

    for _ in 0..3 {
        let r = find_member(&mut pool, &rt, &class, 10, 20, |cached: Option<u64>| match cached {
            Some(h) => Ok((h, h)),
            None => {
                lookups += 1;
                Ok((42, 42))
            }
        });
        assert_eq!(r, Ok(42));
    }
    assert_eq!(lookups, 1);
}

#[test]
fn different_identity_does_not_hit() {
    let rt = live_runtime(&[1, 2]);
    let old_class = ClassRef { id: 1 };
    let new_class = ClassRef { id: 2 };
    let mut pool = SlotPool::new();
    let lookups = Cell::new(0u32);

    let resolve = |pool: &mut SlotPool, class: &ClassRef, handle: u64| {
        find_member(pool, &rt, class, 10, 20, |cached: Option<u64>| match cached {
            Some(h) => Ok((h, h)),
            None => {
                lookups.set(lookups.get() + 1);
                Ok((handle, handle))
            }
        })
    };

    assert_eq!(resolve(&mut pool, &old_class, 100), Ok(100));
    // Same name and types token, but a different live object: a miss.
    assert_eq!(resolve(&mut pool, &new_class, 200), Ok(200));
    // Each class keeps its own entry.
    assert_eq!(resolve(&mut pool, &old_class, 999), Ok(100));
    assert_eq!(resolve(&mut pool, &new_class, 999), Ok(200));
    assert_eq!(lookups.get(), 2);
}

#[test]
fn collected_class_falls_through_to_fresh_lookup() {
    let rt_alive = live_runtime(&[7]);
    let rt_collected = live_runtime(&[]);
    let class = ClassRef { id: 7 };
    let mut pool = SlotPool::new();
    let mut lookups = 0u32;

    let r = find_member(&mut pool, &rt_alive, &class, 1, 2, |cached: Option<u64>| match cached {
        Some(h) => Ok((h, h)),
        None => {
            lookups += 1;
            Ok((11, 11))
        }
    });
    assert_eq!(r, Ok(11));

    // The owning class is collected: the cached entry must not answer.
    let r = find_member(
        &mut pool,
        &rt_collected,
        &class,
        1,
        2,
        |cached: Option<u64>| match cached {
            Some(h) => Ok((h, h)),
            None => {
                lookups += 1;
                Ok((12, 12))
            }
        },
    );
    assert_eq!(r, Ok(12));
    assert_eq!(lookups, 2);
}

#[test]
fn eviction_forces_a_fresh_lookup() {
    let rt = live_runtime(&[3]);
    let class = ClassRef { id: 3 };
    let mut pool = SlotPool::new();
    let capacity = member_cache::slot::SLOT_CAPACITY as u64;
    let lookups = Cell::new(0u32);

    let resolve = |pool: &mut SlotPool, name_id: u64| {
        let r = find_member(pool, &rt, &class, 77, name_id, |cached: Option<u64>| match cached {
            Some(h) => Ok((h, h)),
            None => {
                lookups.set(lookups.get() + 1);
                Ok((1000 + name_id, 1000 + name_id))
            }
        });
        r.unwrap()
    };

    // Fill the slot with exactly its capacity of distinct members.
    for name_id in 0..capacity {
        assert_eq!(resolve(&mut pool, name_id), 1000 + name_id);
    }
    assert_eq!(lookups.get(), capacity as u32);

    // One more distinct member evicts the least recently used (name 0).
    assert_eq!(resolve(&mut pool, capacity), 1000 + capacity);
    assert_eq!(lookups.get(), capacity as u32 + 1);

    // The newest member is a hit...
    assert_eq!(resolve(&mut pool, capacity), 1000 + capacity);
    assert_eq!(lookups.get(), capacity as u32 + 1);

    // ...but the evicted one needs a fresh lookup.
    assert_eq!(resolve(&mut pool, 0), 1000);
    assert_eq!(lookups.get(), capacity as u32 + 2);
}

#[test]
fn failed_lookup_is_surfaced_and_not_cached() {
    let rt = live_runtime(&[4]);
    let class = ClassRef { id: 4 };
    let mut pool = SlotPool::new();
    let mut lookups = 0u32;

    for _ in 0..2 {
        let r = find_member(&mut pool, &rt, &class, 6, 7, |cached: Option<u64>| match cached {
            Some(h) => Ok((h, h)),
            None => {
                lookups += 1;
                Err(PendingException { throwable: 31 })
            }
        });
        assert_eq!(r, Err(PendingException { throwable: 31 }));
    }
    // Nothing was cached: the second resolution looked up again.
    assert_eq!(lookups, 2);
}

#[test]
fn hit_may_still_fail_when_runtime_revalidates() {
    let rt = live_runtime(&[4]);
    let class = ClassRef { id: 4 };
    let mut pool = SlotPool::new();

    let r = find_member(&mut pool, &rt, &class, 6, 7, |_cached: Option<u64>| Ok((5, 5)));
    assert_eq!(r, Ok(5));
    // A hit hands the cached handle to the probe, which may reject it.
    let r = find_member(&mut pool, &rt, &class, 6, 7, |cached: Option<u64>| {
        assert_eq!(cached, Some(5));
        Err(PendingException { throwable: 8 })
    });
    assert_eq!(r, Err(PendingException { throwable: 8 }));
}

#[test]
fn uncached_resolution_always_looks_up() {
    let mut lookups = 0u32;
    for _ in 0..3 {
        let r = find_member_uncached(|cached: Option<u64>| {
            assert_eq!(cached, None);
            lookups += 1;
            Ok((9, 9))
        });
        assert_eq!(r, Ok(9));
    }
    assert_eq!(lookups, 3);

    let r = find_member_uncached(|_cached: Option<u64>| Err(PendingException { throwable: 2 }));
    assert_eq!(r, Err(PendingException { throwable: 2 }));
}

#[test]
fn method_resolution_renders_descriptor_and_caches() {
    let rt = live_runtime(&[9]);
    let class = ClassRef { id: 9 };
    let mut pool = SlotPool::new();
    let mut lookups = 0u32;
    let args = vec![
        Signature::Int,
        Signature::Float,
        Signature::Object("java/lang/String".to_string()),
    ];

    for _ in 0..2 {
        let r = find_method(&mut pool, &rt, &class, 40, 41, &args, &Signature::Void, |d: String| {
            assert_eq!(d, "(IFLjava/lang/String;)V");
            lookups += 1;
            Ok(77)
        });
        assert_eq!(r, Ok(77));
    }
    // The second resolution was a hit: the descriptor was not rebuilt
    // for the host and no second lookup ran.
    assert_eq!(lookups, 1);
}

#[test]
fn method_lookup_failure_propagates() {
    let rt = live_runtime(&[9]);
    let class = ClassRef { id: 9 };
    let mut pool = SlotPool::new();
    let args: Vec<Signature> = vec![];
    let r = find_method(&mut pool, &rt, &class, 40, 41, &args, &Signature::Int, |d: String| {
        assert_eq!(d, "()I");
        Err(PendingException { throwable: 66 })
    });
    assert_eq!(r, Err(PendingException { throwable: 66 }));
}

#[test]
fn field_resolution_uses_type_descriptor_and_caches() {
    let rt = live_runtime(&[9]);
    let class = ClassRef { id: 9 };
    let mut pool = SlotPool::new();
    let mut lookups = 0u32;
    let ty = Signature::Object("java/lang/String".to_string());

    for _ in 0..2 {
        let r = find_field(&mut pool, &rt, &class, 50, 51, &ty, |d: String| {
            assert_eq!(d, "Ljava/lang/String;");
            lookups += 1;
            Ok(88)
        });
        assert_eq!(r, Ok(88));
    }
    assert_eq!(lookups, 1);
}

#[test]
fn method_and_field_with_same_name_are_distinct() {
    // Distinct types tokens keep a method and a field with one name apart.
    let rt = live_runtime(&[9]);
    let class = ClassRef { id: 9 };
    let mut pool = SlotPool::new();
    let mut lookups = 0u32;
    let name_id = 5u64;

    let args: Vec<Signature> = vec![];
    let r = find_method(&mut pool, &rt, &class, 1, name_id, &args, &Signature::Int, |_d: String| {
        lookups += 1;
        Ok(70)
    });
    assert_eq!(r, Ok(70));
    let r = find_field(&mut pool, &rt, &class, 2, name_id, &Signature::Int, |_d: String| {
        lookups += 1;
        Ok(71)
    });
    assert_eq!(r, Ok(71));
    assert_eq!(lookups, 2);
}
