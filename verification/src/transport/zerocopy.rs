//! Buffer accounting of the zero-copy transport.
use vstd::prelude::*;
use std::sync::atomic::{AtomicUsize, Ordering};

verus! {

/// Point-in-time buffer counters.
#[derive(Debug, Clone, Copy, PartialEq, Eq, Structural)]
pub struct BufferStats {
    pub total_allocated: usize,
    pub total_in_use: usize,
    pub active_buffers: usize,
    pub buffer_reuses: usize,
    pub buffer_copies: usize,
}

/// Buffer counters shared by the transport's tasks.
#[derive(Debug)]
pub struct ZeroCopyStats {
    pub total_allocated: AtomicUsize,
    pub total_in_use: AtomicUsize,
    pub active_buffers: AtomicUsize,
    pub buffer_reuses: AtomicUsize,
    pub buffer_copies: AtomicUsize,
}

impl ZeroCopyStats {
    /// Counters at zero.
    pub fn new() -> (r: Self) {
        ZeroCopyStats {
            total_allocated: AtomicUsize::new(0),
            total_in_use: AtomicUsize::new(0),
            active_buffers: AtomicUsize::new(0),
            buffer_reuses: AtomicUsize::new(0),
            buffer_copies: AtomicUsize::new(0),
        }
    }

    /// The current counters; other tasks may change them meanwhile, so
    /// nothing is stated of the values.
    pub fn snapshot(&self) -> BufferStats {
        BufferStats {
            total_allocated: self.total_allocated.load(Ordering::Relaxed),
            total_in_use: self.total_in_use.load(Ordering::Relaxed),
            active_buffers: self.active_buffers.load(Ordering::Relaxed),
            buffer_reuses: self.buffer_reuses.load(Ordering::Relaxed),
            buffer_copies: self.buffer_copies.load(Ordering::Relaxed),
        }
    }
}

/// The size class a buffer request is served from.
#[derive(Debug, Clone, Copy, PartialEq, Eq, Structural)]
pub enum BufferClass {
    Small,
    Medium,
    Large,
    /// Too large for any pool: allocated to size.
    Oversized,
}

/// Size thresholds of a buffer pool.
#[derive(Debug, Clone, Copy, PartialEq, Eq, Structural)]
pub struct PoolSizes {
    pub small_size: usize,
    pub medium_size: usize,
    pub large_size: usize,
}

impl Default for PoolSizes {
    fn default() -> (r: Self)
        ensures
            r.small_size == 4096,
            r.medium_size == 65536,
            r.large_size == 1048576,
    {
        PoolSizes { small_size: 4096, medium_size: 65536, large_size: 1048576 }
    }
}

/// The class of `size`: the first pool whose buffers are large enough.
pub open spec fn class_of(p: PoolSizes, size: nat) -> BufferClass {
    if size <= p.small_size {
        BufferClass::Small
    } else if size <= p.medium_size {
        BufferClass::Medium
    } else if size <= p.large_size {
        BufferClass::Large
    } else {
        BufferClass::Oversized
    }
}

impl PoolSizes {
    /// The pool a request of `size` bytes (or a returned buffer of that capacity) belongs to.
    pub fn class_for(&self, size: usize) -> (r: BufferClass)
        ensures
            r == class_of(*self, size as nat),
    {
        if size <= self.small_size {
            BufferClass::Small
        } else if size <= self.medium_size {
            BufferClass::Medium
        } else if size <= self.large_size {
            BufferClass::Large
        } else {
            BufferClass::Oversized
        }
    }

    /// The capacity of a buffer allocated for a request of `size` bytes.
    pub fn capacity_for(&self, size: usize) -> (r: usize)
        ensures
            r == match class_of(*self, size as nat) {
                BufferClass::Small => self.small_size,
                BufferClass::Medium => self.medium_size,
                BufferClass::Large => self.large_size,
                BufferClass::Oversized => size,
            },
            self.small_size <= self.medium_size <= self.large_size ==> r >= size,
    {
        match self.class_for(size) {
            BufferClass::Small => self.small_size,
            BufferClass::Medium => self.medium_size,
            BufferClass::Large => self.large_size,
            BufferClass::Oversized => size,
        }
    }
}

/// How many idle buffers a pool of a class keeps.
pub fn pool_limit(class: BufferClass) -> (r: usize)
    ensures
        r == match class {
            BufferClass::Small => 100usize,
            BufferClass::Medium => 50,
            BufferClass::Large => 10,
            BufferClass::Oversized => 0,
        },
{
    match class {
        BufferClass::Small => 100,
        BufferClass::Medium => 50,
        BufferClass::Large => 10,
        BufferClass::Oversized => 0,
    }
}

/// `true` iff a returned buffer is kept: its pool has room.
pub fn keeps_returned(sizes: &PoolSizes, capacity: usize, pool_len: usize) -> (r: bool)
    ensures
        r == (class_of(*sizes, capacity as nat) != BufferClass::Oversized
            && pool_len < match class_of(*sizes, capacity as nat) {
                BufferClass::Small => 100usize,
                BufferClass::Medium => 50,
                BufferClass::Large => 10,
                BufferClass::Oversized => 0,
            }),
{
    let class = sizes.class_for(capacity);
    pool_len < pool_limit(class)
}

} // verus!
