//! Memory bookkeeping: allocation statistics, human-readable byte counts
//! and an object pool.

use vstd::prelude::*;
use vstd::arithmetic::power2::pow2;
use crate::text::{decimal, fixed2, div_round_half_even, binary64_round, append_decimal, append_fixed2, scaled_round, binary64_of};

verus! {

/// Allocation statistics.
#[derive(Debug)]
pub struct MemoryStats {
    pub allocated_bytes: usize,
    pub peak_allocated_bytes: usize,
    pub allocation_count: usize,
}

/// The allocation statistics of this build. Allocation tracking is a
/// build option that is off here, so every figure is zero.
pub fn memory_stats() -> (r: MemoryStats)
    ensures
        r.allocated_bytes == 0,
        r.peak_allocated_bytes == 0,
        r.allocation_count == 0,
{
    MemoryStats { allocated_bytes: 0, peak_allocated_bytes: 0, allocation_count: 0 }
}

/// The unit a byte count is shown in: the largest of B, KB, MB, GB and TB
/// (powers of 1024) that does not exceed it.
pub open spec fn byte_unit_index(bytes: nat) -> nat {
    if bytes >= 0x100_0000_0000 {
        4
    } else if bytes >= 0x4000_0000 {
        3
    } else if bytes >= 0x10_0000 {
        2
    } else if bytes >= 0x400 {
        1
    } else {
        0
    }
}

/// The name of unit `k`.
pub open spec fn byte_unit_name(k: nat) -> Seq<char> {
    if k == 0 {
        seq!['B']
    } else if k == 1 {
        seq!['K', 'B']
    } else if k == 2 {
        seq!['M', 'B']
    } else if k == 3 {
        seq!['G', 'B']
    } else {
        seq!['T', 'B']
    }
}

/// The label `format_bytes` gives: whole bytes below 1 KB ("512 B"), else
/// the count as a binary64 float divided by the unit, rounded half to even
/// to two decimals ("1.50 KB").
pub open spec fn format_bytes_text(bytes: nat) -> Seq<char> {
    let k = byte_unit_index(bytes);
    if k == 0 {
        decimal(bytes) + seq![' ', 'B']
    } else {
        fixed2(div_round_half_even(binary64_round(bytes) * 100, pow2(10 * k))) + seq![' ']
            + byte_unit_name(k)
    }
}

/// A human-readable byte count, such as "0 B", "512 B" or "1.50 KB".
pub fn format_bytes(bytes: usize) -> (r: String)
    ensures
        r@ == format_bytes_text(bytes as nat),
{
    let mut s = String::new();
    let k: u32 = if bytes as u64 >= 0x100_0000_0000 {
        4
    } else if bytes as u64 >= 0x4000_0000 {
        3
    } else if bytes as u64 >= 0x10_0000 {
        2
    } else if bytes as u64 >= 0x400 {
        1
    } else {
        0
    };
    if k == 0 {
        append_decimal(&mut s, bytes as u128);
        proof {
            reveal_strlit(" B");
        }
        s.append(" B");
        return s;
    }
    let m = binary64_of(bytes as u64);
    let q = scaled_round(m * 100, 10 * k);
    append_fixed2(&mut s, q);
    proof {
        reveal_strlit(" ");
        reveal_strlit("KB");
        reveal_strlit("MB");
        reveal_strlit("GB");
        reveal_strlit("TB");
    }
    s.append(" ");
    let unit = if k == 1 {
        "KB"
    } else if k == 2 {
        "MB"
    } else if k == 3 {
        "GB"
    } else {
        "TB"
    };
    s.append(unit);
    s
}

/// Counters kept by a tracking allocator: bytes currently allocated, the
/// highest value that figure reached, and the number of allocations.
///
/// The counters wrap around on overflow, as the atomic counters of an
/// allocator do.
pub struct TrackedAllocator {
    allocated: usize,
    peak_allocated: usize,
    allocation_count: usize,
}

impl TrackedAllocator {
    /// Bytes currently allocated.
    pub closed spec fn spec_allocated(&self) -> usize {
        self.allocated
    }

    /// The highest number of bytes allocated at once since the last reset.
    pub closed spec fn spec_peak(&self) -> usize {
        self.peak_allocated
    }

    /// Allocations made since the last reset.
    pub closed spec fn spec_count(&self) -> usize {
        self.allocation_count
    }

    /// Counters at zero.
    pub fn new() -> (r: Self)
        ensures
            r.spec_allocated() == 0,
            r.spec_peak() == 0,
            r.spec_count() == 0,
    {
        TrackedAllocator { allocated: 0, peak_allocated: 0, allocation_count: 0 }
    }

    /// Bytes currently allocated.
    pub fn allocated_bytes(&self) -> (r: usize)
        ensures
            r == self.spec_allocated(),
    {
        self.allocated
    }

    /// The peak of allocated bytes.
    pub fn peak_allocated_bytes(&self) -> (r: usize)
        ensures
            r == self.spec_peak(),
    {
        self.peak_allocated
    }

    /// The number of allocations.
    pub fn allocation_count(&self) -> (r: usize)
        ensures
            r == self.spec_count(),
    {
        self.allocation_count
    }

    /// Restarts the peak at the current figure and the count at zero.
    pub fn reset_stats(&mut self)
        ensures
            final(self).spec_allocated() == old(self).spec_allocated(),
            final(self).spec_peak() == old(self).spec_allocated(),
            final(self).spec_count() == 0,
    {
        self.peak_allocated = self.allocated;
        self.allocation_count = 0;
    }

    /// Records a successful allocation of `size` bytes.
    pub fn record_alloc(&mut self, size: usize)
        ensures
            final(self).spec_allocated() == old(self).spec_allocated().wrapping_add(size),
            final(self).spec_count() == old(self).spec_count().wrapping_add(1),
            final(self).spec_peak() == if old(self).spec_allocated().wrapping_add(size)
                > old(self).spec_peak() {
                old(self).spec_allocated().wrapping_add(size)
            } else {
                old(self).spec_peak()
            },
    {
        let new_allocated = self.allocated.wrapping_add(size);
        self.allocated = new_allocated;
        self.allocation_count = self.allocation_count.wrapping_add(1);
        if new_allocated > self.peak_allocated {
            self.peak_allocated = new_allocated;
        }
    }

    /// Records the release of `size` bytes.
    pub fn record_dealloc(&mut self, size: usize)
        ensures
            final(self).spec_allocated() == old(self).spec_allocated().wrapping_sub(size),
            final(self).spec_count() == old(self).spec_count(),
            final(self).spec_peak() == old(self).spec_peak(),
    {
        self.allocated = self.allocated.wrapping_sub(size);
    }
}

/// Recording a release of the bytes an allocation recorded gives back the
/// count of allocated bytes from before, even across wrap-around.
pub proof fn law_dealloc_undoes_alloc(allocated: usize, size: usize)
    ensures
        allocated.wrapping_add(size).wrapping_sub(size) == allocated,
{
}

/// The value released last is the one acquired next, and taking it leaves
/// the pool as it was before the release.
pub proof fn law_acquire_returns_last_released<T>(items: Seq<T>, x: T)
    ensures
        items.push(x).len() > 0,
        items.push(x).last() == x,
        items.push(x).drop_last() == items,
{
    assert(items.push(x).drop_last() =~= items);
}

/// A pool of reusable values: released values are handed out again, most
/// recent first, and the factory makes new ones when the pool is empty.
#[verifier::reject_recursive_types(T)]
pub struct Pool<T, F: Fn() -> T> {
    items: Vec<T>,
    factory: F,
}

impl<T, F: Fn() -> T> Pool<T, F> {
    /// The values waiting in the pool; the last one goes out first.
    pub closed spec fn items(&self) -> Seq<T> {
        self.items@
    }

    /// The factory the pool was made with.
    pub closed spec fn factory(&self) -> F {
        self.factory
    }

    /// The factory can be called.
    pub open spec fn wf(&self) -> bool {
        call_requires(self.factory(), ())
    }

    /// An empty pool that makes values with `factory`.
    pub fn new(factory: F) -> (r: Self)
        requires
            call_requires(factory, ()),
        ensures
            r.wf(),
            r.items() == Seq::<T>::empty(),
            r.factory() == factory,
    {
        Pool { items: Vec::new(), factory }
    }

    /// An empty pool with room reserved for `capacity` values.
    pub fn with_capacity(capacity: usize, factory: F) -> (r: Self)
        requires
            call_requires(factory, ()),
        ensures
            r.wf(),
            r.items() == Seq::<T>::empty(),
            r.factory() == factory,
    {
        Pool { items: Vec::with_capacity(capacity), factory }
    }

    /// Takes the most recently released value, or makes a new one when the
    /// pool is empty.
    pub fn acquire(&mut self) -> (r: T)
        requires
            old(self).wf(),
        ensures
            final(self).wf(),
            final(self).factory() == old(self).factory(),
            old(self).items().len() > 0 ==> r == old(self).items().last() && final(self).items()
                == old(self).items().drop_last(),
            old(self).items().len() == 0 ==> call_ensures(old(self).factory(), (), r)
                && final(self).items() == old(self).items(),
    {
        match self.items.pop() {
            Some(item) => item,
            None => (self.factory)(),
        }
    }

    /// Puts `item` back into the pool.
    pub fn release(&mut self, item: T)
        ensures
            final(self).items() == old(self).items().push(item),
            final(self).factory() == old(self).factory(),
    {
        self.items.push(item);
    }

    /// The number of values waiting.
    pub fn len(&self) -> (r: usize)
        ensures
            r == self.items().len(),
    {
        self.items.len()
    }

    /// Whether no value is waiting.
    pub fn is_empty(&self) -> (r: bool)
        ensures
            r == (self.items().len() == 0),
    {
        self.items.is_empty()
    }

    /// Drops every waiting value.
    pub fn clear(&mut self)
        ensures
            final(self).items() == Seq::<T>::empty(),
            final(self).factory() == old(self).factory(),
    {
        self.items.clear();
    }
}

} // verus!
