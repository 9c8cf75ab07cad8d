//! The observable switch of the experimental allocator: whether custom
//! allocation is enabled. The allocation machinery itself is unsafe,
//! process-global code and lives outside the verified library.

use vstd::prelude::*;

verus! {

/// The allocator toggle, off when constructed.
pub struct MyAllocator {
    on: bool,
}

impl MyAllocator {
    pub fn new() -> (a: MyAllocator)
        ensures
            !a.spec_is_on(),
    {
        MyAllocator { on: false }
    }

    /// Whether custom allocation is enabled.
    pub closed spec fn spec_is_on(&self) -> bool {
        self.on
    }

    pub fn is_on(&self) -> (r: bool)
        ensures
            r == self.spec_is_on(),
    {
        self.on
    }
}

} // verus!
