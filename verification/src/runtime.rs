//! Model of the managed runtime's object identity and weak references.
//!
//! The cache never owns a managed object: it keys entries by the
//! identity of the owning class and asks, at probe time, whether a
//! stored weak identity still refers to the same live object as the
//! caller's reference. Identity is a process-stable token; liveness is
//! whatever the runtime reports at the moment of the probe. A collected
//! referent makes the identity check false, never an error.

use vstd::prelude::*;

verus! {

/// A live, strong reference to a managed class object.
#[derive(Clone, Copy, PartialEq, Eq, Structural)]
pub struct ClassRef {
    /// The identity token of the referenced object.
    pub id: u64,
}

/// A weak, non-owning handle to a managed object: it can be compared
/// for identity against a live reference but never keeps its referent
/// alive.
#[derive(Clone, Copy, PartialEq, Eq, Structural)]
pub struct WeakRef {
    /// The identity token the handle was taken from.
    pub id: u64,
}

/// Produce a weak handle from a live reference. Never fails.
pub fn downgrade(class: &ClassRef) -> (w: WeakRef)
    ensures
        w.id == class.id,
{
    WeakRef { id: class.id }
}

/// The attachment of the current thread to the managed runtime, carrying
/// what the runtime reports about liveness: the identity tokens of the
/// objects that are currently live (not yet reclaimed by the collector).
pub struct Runtime {
    /// Identity tokens of the currently live objects.
    pub live: Vec<u64>,
}

impl View for Runtime {
    type V = Seq<u64>;

    open spec fn view(&self) -> Seq<u64> {
        self.live@
    }
}

impl Runtime {
    /// Is an identity token currently live?
    pub open spec fn is_live(&self, id: u64) -> bool {
        self@.contains(id)
    }

    /// Do a weak handle and a live reference currently refer to the same
    /// live object? False whenever the weak referent has been collected.
    pub open spec fn same_object(&self, w: WeakRef, class: ClassRef) -> bool {
        w.id == class.id && self.is_live(w.id)
    }

    /// Runtime-mediated identity comparison between a weak handle and a
    /// live reference.
    pub fn is_same_object(&self, w: &WeakRef, class: &ClassRef) -> (r: bool)
        ensures
            r == self.same_object(*w, *class),
    {
        if w.id != class.id {
            return false;
        }
        let mut i: usize = 0;
        while i < self.live.len()
            invariant
                0 <= i <= self@.len(),
                w.id == class.id,
                forall|j: int| 0 <= j < i ==> self@[j] != w.id,
            decreases self@.len() - i,
        {
            if self.live[i] == w.id {
                proof {
                    assert(self@[i as int] == w.id);
                    assert(self@.contains(w.id));
                }
                return true;
            }
            i += 1;
        }
        false
    }
}

} // verus!
