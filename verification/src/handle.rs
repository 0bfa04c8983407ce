//! The owned-native-handle pattern: a model of the native allocator.
//!
//! Every wrapped object (table, chain, rule) owns exactly one native
//! allocation. The allocator hands out distinct handle identities and has a
//! budget of grants; when the budget is spent it returns nothing, which models
//! the null pointer the C allocator returns under memory pressure. Identities
//! are never reused, so two allocations made by one allocator are always
//! distinguishable. Release of a granted handle is tied to Rust ownership:
//! each wrapper is the sole owner of its identity and gives it up exactly once,
//! when the wrapper itself is dropped.

use vstd::prelude::*;

verus! {

/// Grants native handle identities, with a bounded budget of allocations.
#[derive(Debug)]
pub struct Allocator {
    available: u64,
    next_id: u64,
}

/// The mathematical state of an [`Allocator`]: how many grants are left and
/// which identity the next grant will carry.
pub ghost struct AllocatorView {
    pub available: u64,
    pub next_id: u64,
}

impl AllocatorView {
    /// Whether the next allocation will succeed.
    pub open spec fn can_alloc(self) -> bool {
        self.available > 0 && self.next_id < u64::MAX
    }

    /// The state after one successful allocation.
    pub open spec fn after_alloc(self) -> AllocatorView {
        AllocatorView {
            available: (self.available - 1) as u64,
            next_id: (self.next_id + 1) as u64,
        }
    }

    /// The state after `n` successful allocations.
    pub open spec fn after_allocs(self, n: int) -> AllocatorView
        decreases n,
    {
        if n <= 0 {
            self
        } else {
            self.after_allocs(n - 1).after_alloc()
        }
    }
}

impl View for Allocator {
    type V = AllocatorView;

    closed spec fn view(&self) -> AllocatorView {
        AllocatorView { available: self.available, next_id: self.next_id }
    }
}

impl Allocator {
    /// An allocator that will grant at most `capacity` allocations.
    pub fn with_capacity(capacity: u64) -> (r: Allocator)
        ensures
            r@.available == capacity,
            r@.next_id == 1,
    {
        Allocator { available: capacity, next_id: 1 }
    }

    /// An allocator that always fails, as a native allocator out of memory
    /// returns null on every call.
    pub fn exhausted() -> (r: Allocator)
        ensures
            r@.available == 0,
            r@.next_id == 1,
            !r@.can_alloc(),
    {
        Allocator { available: 0, next_id: 1 }
    }

    /// Grants one fresh handle identity, or nothing when the budget is spent.
    pub fn allocate(&mut self) -> (r: Option<u64>)
        ensures
            old(self)@.can_alloc() ==> r == Some(old(self)@.next_id) && final(self)@
                == old(self)@.after_alloc(),
            !old(self)@.can_alloc() ==> r is None && final(self)@ == old(self)@,
    {
        if self.available > 0 && self.next_id < u64::MAX {
            let id = self.next_id;
            self.next_id = self.next_id + 1;
            self.available = self.available - 1;
            Some(id)
        } else {
            None
        }
    }
}

} // verus!
