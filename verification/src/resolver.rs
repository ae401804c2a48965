//! The member resolver: the public entry point of the cache.
//!
//! A resolution leases a slot, probes it for a previously resolved
//! member, and on a miss asks the host runtime for a fresh lookup
//! through the caller-supplied probe function, recording the result.
//! The slot is released unconditionally, on the failure path too. A
//! lookup failure is surfaced as a pending exception and never cached;
//! a stale or missing entry is never an error, only a miss.

use vstd::prelude::*;

use crate::pool::SlotPool;
use crate::runtime::{downgrade, ClassRef, Runtime, WeakRef};
use crate::signature::{method_descriptor, method_signature_of, Signature};
use crate::slot::{entry_matches, hit_index, inserted, touched, CacheEntry, SLOT_CAPACITY};

verus! {

/// A failure signaled by the managed runtime during a lookup: it
/// carries the raw handle of the throwable object the runtime left
/// pending. The caller must propagate or clear it; the resolver never
/// swallows it.
#[derive(Clone, Copy, Debug, PartialEq, Eq, Structural)]
pub struct PendingException {
    /// Raw handle of the pending throwable object.
    pub throwable: u64,
}

/// The contents of the slot a lease takes: the top of the free stack,
/// or an empty, freshly allocated slot when the pool is empty.
pub open spec fn leased_contents(p: Seq<Seq<CacheEntry>>) -> Seq<CacheEntry> {
    if p.len() > 0 {
        p.last()
    } else {
        Seq::empty()
    }
}

/// The pool as the lease leaves it, before the slot comes back.
pub open spec fn remaining(p: Seq<Seq<CacheEntry>>) -> Seq<Seq<CacheEntry>> {
    if p.len() > 0 {
        p.drop_last()
    } else {
        p
    }
}

/// The entry a successful miss records: the class identity downgraded
/// to a weak handle, the probe key, and the raw handle to cache.
pub open spec fn new_entry(class: ClassRef, types_id: u64, name_id: u64, handle: u64) -> CacheEntry {
    CacheEntry { class: WeakRef { id: class.id }, types_id, name_id, handle }
}

/// Did the probe function, called with `cached`, succeed with typed
/// member `member` (and some raw handle to cache)?
pub open spec fn found_via<F: FnOnce(Option<u64>) -> Result<(u64, u64), PendingException>>(
    find: F,
    cached: Option<u64>,
    member: u64,
) -> bool {
    exists|c: u64| call_ensures(find, (cached,), Ok::<(u64, u64), PendingException>((member, c)))
}

/// Resolve a member through the cache.
///
/// `find` abstracts the host runtime's lookup: called with the cached
/// raw handle on a hit (it may still fail, since some host runtimes
/// re-validate), and with nothing on a miss, in which case it performs
/// the full lookup and returns the typed member plus the raw handle to
/// cache. On a successful miss the new entry is recorded, evicting the
/// least recently used entry of a full slot; a failed lookup caches
/// nothing. The leased slot is always released.
pub fn find_member<F: FnOnce(Option<u64>) -> Result<(u64, u64), PendingException>>(
    pool: &mut SlotPool,
    rt: &Runtime,
    class: &ClassRef,
    types_id: u64,
    name_id: u64,
    find: F,
) -> (r: Result<u64, PendingException>)
    requires
        old(pool).wf(),
        forall|cached: Option<u64>| call_requires(find, (cached,)),
    ensures
        final(pool).wf(),
        ({
            let p0 = old(pool)@;
            let s0 = leased_contents(p0);
            let i = hit_index(s0, types_id, name_id, *class, rt@);
            if i >= 0 {
                final(pool)@ == remaining(p0).push(touched(s0, i)) && (match r {
                    Ok(member) => found_via(find, Some(s0[i].handle), member),
                    Err(e) => call_ensures(
                        find,
                        (Some(s0[i].handle),),
                        Err::<(u64, u64), PendingException>(e),
                    ),
                })
            } else {
                match r {
                    Ok(member) => ({
                        let c = final(pool)@.last()[0].handle;
                        call_ensures(find, (None::<u64>,), Ok((member, c))) && final(pool)@
                            == remaining(p0).push(
                            inserted(s0, new_entry(*class, types_id, name_id, c)),
                        )
                    }),
                    Err(e) => call_ensures(
                        find,
                        (None::<u64>,),
                        Err::<(u64, u64), PendingException>(e),
                    ) && final(pool)@ == remaining(p0).push(s0),
                }
            }
        }),
{
    let mut slot = pool.lease();
    let cached = slot.probe(types_id, name_id, class, rt);
    let r = match cached {
        Some(handle) => {
            match find(Some(handle)) {
                Ok((member, cache)) => {
                    proof {
                        assert(call_ensures(
                            find,
                            (Some(handle),),
                            Ok::<(u64, u64), PendingException>((member, cache)),
                        ));
                        assert(found_via(find, Some(handle), member));
                    }
                    Ok(member)
                },
                Err(e) => Err(e),
            }
        },
        None => {
            match find(None) {
                Ok((member, cache)) => {
                    proof {
                        assert(call_ensures(
                            find,
                            (None::<u64>,),
                            Ok::<(u64, u64), PendingException>((member, cache)),
                        ));
                    }
                    slot.insert_entry(
                        CacheEntry {
                            class: downgrade(class),
                            types_id,
                            name_id,
                            handle: cache,
                        },
                    );
                    proof {
                        assert(slot@[0] == new_entry(*class, types_id, name_id, cache));
                    }
                    Ok(member)
                },
                Err(e) => Err(e),
            }
        },
    };
    pool.release(slot);
    r
}

/// Resolve a member without consulting the cache: the host lookup runs
/// on every call. The cache is an accelerant, never a correctness
/// dependency, so this path must behave like a permanent miss.
pub fn find_member_uncached<F: FnOnce(Option<u64>) -> Result<(u64, u64), PendingException>>(
    find: F,
) -> (r: Result<u64, PendingException>)
    requires
        call_requires(find, (None::<u64>,)),
    ensures
        r is Ok ==> found_via(find, None::<u64>, r->Ok_0),
        r is Err ==> call_ensures(find, (None::<u64>,), Err::<(u64, u64), PendingException>(r->Err_0)),
{
    match find(None) {
        Ok((member, cache)) => {
            proof {
                assert(call_ensures(
                    find,
                    (None::<u64>,),
                    Ok::<(u64, u64), PendingException>((member, cache)),
                ));
                assert(found_via(find, None::<u64>, member));
            }
            Ok(member)
        },
        Err(e) => Err(e),
    }
}

/// Resolve a method through the cache. On a hit the cached raw handle
/// is returned directly; on a miss the method descriptor is rendered
/// from the argument and return types and handed to `lookup`, the host
/// runtime's method lookup, whose result is cached on success.
pub fn find_method<L: FnOnce(String) -> Result<u64, PendingException>>(
    pool: &mut SlotPool,
    rt: &Runtime,
    class: &ClassRef,
    types_id: u64,
    name_id: u64,
    args: &[Signature],
    ret: &Signature,
    lookup: L,
) -> (r: Result<u64, PendingException>)
    requires
        old(pool).wf(),
        forall|d: String| d@ == method_descriptor(args@, *ret) ==> call_requires(lookup, (d,)),
    ensures
        final(pool).wf(),
        ({
            let p0 = old(pool)@;
            let s0 = leased_contents(p0);
            let i = hit_index(s0, types_id, name_id, *class, rt@);
            if i >= 0 {
                r == Ok::<u64, PendingException>(s0[i].handle) && final(pool)@ == remaining(
                    p0,
                ).push(touched(s0, i))
            } else {
                match r {
                    Ok(handle) => (exists|d: String|
                        d@ == method_descriptor(args@, *ret) && call_ensures(
                            lookup,
                            (d,),
                            Ok::<u64, PendingException>(handle),
                        )) && final(pool)@ == remaining(p0).push(
                        inserted(s0, new_entry(*class, types_id, name_id, handle)),
                    ),
                    Err(e) => (exists|d: String|
                        d@ == method_descriptor(args@, *ret) && call_ensures(
                            lookup,
                            (d,),
                            Err::<u64, PendingException>(e),
                        )) && final(pool)@ == remaining(p0).push(s0),
                }
            }
        }),
{
    let mut slot = pool.lease();
    let cached = slot.probe(types_id, name_id, class, rt);
    let r = match cached {
        Some(handle) => Ok(handle),
        None => {
            let descriptor = method_signature_of(args, ret);
            let ghost d0 = descriptor;
            match lookup(descriptor) {
                Ok(handle) => {
                    proof {
                        assert(d0@ == method_descriptor(args@, *ret) && call_ensures(
                            lookup,
                            (d0,),
                            Ok::<u64, PendingException>(handle),
                        ));
                    }
                    slot.insert_entry(
                        CacheEntry {
                            class: downgrade(class),
                            types_id,
                            name_id,
                            handle,
                        },
                    );
                    Ok(handle)
                },
                Err(e) => {
                    proof {
                        assert(d0@ == method_descriptor(args@, *ret) && call_ensures(
                            lookup,
                            (d0,),
                            Err::<u64, PendingException>(e),
                        ));
                    }
                    Err(e)
                },
            }
        },
    };
    pool.release(slot);
    r
}

/// Resolve a field through the cache. Like `find_method`, but the
/// descriptor handed to `lookup`, the host runtime's field lookup, is
/// the field type's own descriptor: a field has no parameter list.
pub fn find_field<L: FnOnce(String) -> Result<u64, PendingException>>(
    pool: &mut SlotPool,
    rt: &Runtime,
    class: &ClassRef,
    types_id: u64,
    name_id: u64,
    ty: &Signature,
    lookup: L,
) -> (r: Result<u64, PendingException>)
    requires
        old(pool).wf(),
        forall|d: String| d@ == ty.chars() ==> call_requires(lookup, (d,)),
    ensures
        final(pool).wf(),
        ({
            let p0 = old(pool)@;
            let s0 = leased_contents(p0);
            let i = hit_index(s0, types_id, name_id, *class, rt@);
            if i >= 0 {
                r == Ok::<u64, PendingException>(s0[i].handle) && final(pool)@ == remaining(
                    p0,
                ).push(touched(s0, i))
            } else {
                match r {
                    Ok(handle) => (exists|d: String|
                        d@ == ty.chars() && call_ensures(
                            lookup,
                            (d,),
                            Ok::<u64, PendingException>(handle),
                        )) && final(pool)@ == remaining(p0).push(
                        inserted(s0, new_entry(*class, types_id, name_id, handle)),
                    ),
                    Err(e) => (exists|d: String|
                        d@ == ty.chars() && call_ensures(
                            lookup,
                            (d,),
                            Err::<u64, PendingException>(e),
                        )) && final(pool)@ == remaining(p0).push(s0),
                }
            }
        }),
{
    let mut slot = pool.lease();
    let cached = slot.probe(types_id, name_id, class, rt);
    let r = match cached {
        Some(handle) => Ok(handle),
        None => {
            let descriptor = ty.render();
            let ghost d0 = descriptor;
            match lookup(descriptor) {
                Ok(handle) => {
                    proof {
                        assert(d0@ == ty.chars() && call_ensures(
                            lookup,
                            (d0,),
                            Ok::<u64, PendingException>(handle),
                        ));
                    }
                    slot.insert_entry(
                        CacheEntry {
                            class: downgrade(class),
                            types_id,
                            name_id,
                            handle,
                        },
                    );
                    Ok(handle)
                },
                Err(e) => {
                    proof {
                        assert(d0@ == ty.chars() && call_ensures(
                            lookup,
                            (d0,),
                            Err::<u64, PendingException>(e),
                        ));
                    }
                    Err(e)
                },
            }
        },
    };
    pool.release(slot);
    r
}



/// Cache correctness: once a successful miss has recorded a member
/// whose owning class is still live, a probe for the same (types
/// token, name, class) finds the entry at the front of the slot and
/// yields exactly the recorded raw handle. A second resolution of the
/// same member therefore runs as a hit and needs no second host
/// lookup.
pub proof fn lemma_resolved_member_is_cached(
    s: Seq<CacheEntry>,
    class: ClassRef,
    types_id: u64,
    name_id: u64,
    handle: u64,
    live: Seq<u64>,
)
    requires
        live.contains(class.id),
    ensures
        hit_index(inserted(s, new_entry(class, types_id, name_id, handle)), types_id, name_id, class, live) == 0,
        inserted(s, new_entry(class, types_id, name_id, handle))[0].handle == handle,
{
    let e = new_entry(class, types_id, name_id, handle);
    assert(inserted(s, e)[0] == e);
    assert(entry_matches(e, types_id, name_id, class, live));
}

/// Identity-sensitive invalidation: an entry keyed to one object
/// identity never answers a probe for a different object, even when
/// the member name and the types token collide exactly.
pub proof fn lemma_identity_sensitive(
    s: Seq<CacheEntry>,
    class: ClassRef,
    types_id: u64,
    name_id: u64,
    live: Seq<u64>,
)
    requires
        forall|j: int| 0 <= j < s.len() ==> (#[trigger] s[j]).class.id != class.id,
    ensures
        hit_index(s, types_id, name_id, class, live) == -1,
{
    crate::slot::lemma_hit_index_characterizes(s, types_id, name_id, class, live);
}

/// Collected-object miss: once the probed class identity is no longer
/// live, every probe misses, whatever the slot holds. Resolution falls
/// through to a fresh host lookup rather than a stale handle.
pub proof fn lemma_collected_class_misses(
    s: Seq<CacheEntry>,
    class: ClassRef,
    types_id: u64,
    name_id: u64,
    live: Seq<u64>,
)
    requires
        !live.contains(class.id),
    ensures
        hit_index(s, types_id, name_id, class, live) == -1,
{
    crate::slot::lemma_hit_index_characterizes(s, types_id, name_id, class, live);
}

/// Bounded capacity: an insertion never grows a slot past its
/// capacity, and a full slot keeps exactly its capacity.
pub proof fn lemma_capacity_bound(s: Seq<CacheEntry>, e: CacheEntry)
    requires
        s.len() <= SLOT_CAPACITY,
    ensures
        inserted(s, e).len() <= SLOT_CAPACITY,
        s.len() == SLOT_CAPACITY ==> inserted(s, e).len() == SLOT_CAPACITY,
{
}

/// Eviction: inserting into a full slot removes exactly the least
/// recently used entry. When that entry was the only one able to
/// answer a probe, the probe now misses, so the evicted member must be
/// resolved through a fresh host lookup.
pub proof fn lemma_eviction(
    s: Seq<CacheEntry>,
    e: CacheEntry,
    types_id: u64,
    name_id: u64,
    class: ClassRef,
    live: Seq<u64>,
)
    requires
        s.len() == SLOT_CAPACITY,
        forall|j: int|
            0 <= j < s.len() - 1 ==> !entry_matches(
                #[trigger] s[j],
                types_id,
                name_id,
                class,
                live,
            ),
        !entry_matches(e, types_id, name_id, class, live),
    ensures
        inserted(s, e) == s.drop_last().insert(0, e),
        hit_index(inserted(s, e), types_id, name_id, class, live) == -1,
{
    let ins = inserted(s, e);
    assert(ins == s.drop_last().insert(0, e));
    assert(ins[0] == e);
    assert(forall|j: int| 1 <= j < ins.len() ==> #[trigger] ins[j] == s[j - 1]);
    crate::slot::lemma_hit_index_characterizes(ins, types_id, name_id, class, live);
}


/// A hit keeps the member cached: the touch moves the matching entry
/// to the front, where the same probe finds it again with the same
/// handle. Second and subsequent resolutions of one member therefore
/// keep returning the handle the first resolution recorded.
pub proof fn lemma_hit_is_stable(
    s: Seq<CacheEntry>,
    types_id: u64,
    name_id: u64,
    class: ClassRef,
    live: Seq<u64>,
)
    requires
        0 <= hit_index(s, types_id, name_id, class, live),
    ensures
        ({
            let i = hit_index(s, types_id, name_id, class, live);
            &&& hit_index(touched(s, i), types_id, name_id, class, live) == 0
            &&& touched(s, i)[0].handle == s[i].handle
        }),
{
    let i = hit_index(s, types_id, name_id, class, live);
    crate::slot::lemma_hit_index_characterizes(s, types_id, name_id, class, live);
    assert(touched(s, i)[0] == s[i]);
}

/// Cache correctness across two resolutions: after a successful miss
/// records a member into the leased slot and the slot returns to the
/// pool, the slot the next resolution leases holds that member at the
/// front, provided the owning class is still live. The next resolution
/// of the same (types token, name, class) is therefore a hit on the
/// recorded handle.
pub proof fn lemma_second_resolution_hits(
    p: Seq<Seq<CacheEntry>>,
    class: ClassRef,
    types_id: u64,
    name_id: u64,
    handle: u64,
    live: Seq<u64>,
)
    requires
        live.contains(class.id),
    ensures
        ({
            let p1 = remaining(p).push(
                inserted(leased_contents(p), new_entry(class, types_id, name_id, handle)),
            );
            &&& hit_index(leased_contents(p1), types_id, name_id, class, live) == 0
            &&& leased_contents(p1)[0].handle == handle
        }),
{
    lemma_resolved_member_is_cached(leased_contents(p), class, types_id, name_id, handle, live);
}

} // verus!
