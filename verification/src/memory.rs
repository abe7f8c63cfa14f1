//! Heap sizing and a small allocation probe.

use vstd::prelude::*;

verus! {

/// Heap size reserved by the hosting kernel: one mebibyte.
pub const HEAP_SIZE: usize = 1024 * 1024;

/// Allocates one value on the heap and returns it: a probe that the
/// allocator works at all.
pub fn alloc_example() -> (r: Box<u64>)
    ensures
        *r == 42u64,
{
    Box::new(42)
}

} // verus!
