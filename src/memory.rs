use std::collections::hash_map::DefaultHasher;
use std::hash::Hasher;
use vstd::prelude::*;
use vstd::std_specs::hash::DefaultHasherAdditionalSpecFns;

verus! {

#[derive(Clone, Copy, Debug, PartialEq, Eq, Structural)]
pub enum MemoryError {
    /// The operand and result vectors differ in length.
    LengthMismatch,
}

/// Allocation counters of the process.
#[derive(Clone, Copy, Debug, PartialEq, Eq, Structural)]
pub struct MemoryStats {
    pub allocations: usize,
    pub deallocations: usize,
    pub current_memory: usize,
    pub peak_memory: usize,
}

/// Tracks allocations: how many were made and freed, the bytes live now and
/// the most that were ever live. Counters wrap around as machine words do.
pub struct MemoryOptimizer {
    allocations: usize,
    deallocations: usize,
    peak_memory: usize,
    current_memory: usize,
}

impl MemoryOptimizer {
    pub closed spec fn stats(&self) -> MemoryStats {
        MemoryStats {
            allocations: self.allocations,
            deallocations: self.deallocations,
            current_memory: self.current_memory,
            peak_memory: self.peak_memory,
        }
    }

    /// A tracker with every counter at zero.
    pub fn new() -> (m: Self)
        ensures
            m.stats() == (MemoryStats { allocations: 0, deallocations: 0, current_memory: 0, peak_memory: 0 }),
    {
        MemoryOptimizer { allocations: 0, deallocations: 0, peak_memory: 0, current_memory: 0 }
    }

    /// Records an allocation of `size` bytes.
    pub fn record_allocation(&mut self, size: usize)
        ensures
            final(self).stats().allocations == vstd::wrapping::usize_specs::wrapping_add(old(self).stats().allocations, 1),
            final(self).stats().deallocations == old(self).stats().deallocations,
            final(self).stats().current_memory == vstd::wrapping::usize_specs::wrapping_add(old(self).stats().current_memory, size),
            final(self).stats().peak_memory == if final(self).stats().current_memory > old(self).stats().peak_memory {
                final(self).stats().current_memory
            } else {
                old(self).stats().peak_memory
            },
    {
        self.allocations = self.allocations.wrapping_add(1);
        self.current_memory = self.current_memory.wrapping_add(size);
        if self.current_memory > self.peak_memory {
            self.peak_memory = self.current_memory;
        }
    }

    /// Records that `size` bytes were freed.
    pub fn record_deallocation(&mut self, size: usize)
        ensures
            final(self).stats().allocations == old(self).stats().allocations,
            final(self).stats().deallocations == vstd::wrapping::usize_specs::wrapping_add(old(self).stats().deallocations, 1),
            final(self).stats().current_memory == vstd::wrapping::usize_specs::wrapping_sub(old(self).stats().current_memory, size),
            final(self).stats().peak_memory == old(self).stats().peak_memory,
    {
        self.deallocations = self.deallocations.wrapping_add(1);
        self.current_memory = self.current_memory.wrapping_sub(size);
    }

    /// The counters as they stand.
    pub fn get_stats(&self) -> (s: MemoryStats)
        ensures
            s == self.stats(),
    {
        MemoryStats {
            allocations: self.allocations,
            deallocations: self.deallocations,
            current_memory: self.current_memory,
            peak_memory: self.peak_memory,
        }
    }

    /// Prepares memory placement for proving. The host offers no placement
    /// policy to set, so there is nothing to change and this always succeeds.
    pub fn optimize_for_proving(&self) -> (r: Result<(), MemoryError>)
        ensures
            r is Ok,
    {
        Ok(())
    }
}

/// Sets up memory handling for proving.
pub fn init_memory_optimizations() -> (r: Result<(), MemoryError>)
    ensures
        r is Ok,
{
    let optimizer = MemoryOptimizer::new();
    optimizer.optimize_for_proving()
}

/// A fixed number of ready-made objects handed out in turn.
pub struct MemoryPool<T> {
    pool: Vec<T>,
    capacity: usize,
    in_use: usize,
}

impl<T: Default + Clone> MemoryPool<T> {
    pub closed spec fn wf(&self) -> bool {
        &&& self.pool@.len() == self.capacity
        &&& self.in_use <= self.capacity
    }

    pub closed spec fn spec_capacity(&self) -> nat {
        self.capacity as nat
    }

    pub closed spec fn spec_in_use(&self) -> nat {
        self.in_use as nat
    }

    /// A pool of `capacity` default objects, none handed out.
    pub fn new(capacity: usize) -> (p: Self)
        ensures
            p.wf(),
            p.spec_capacity() == capacity,
            p.spec_in_use() == 0,
    {
        let mut pool: Vec<T> = Vec::new();
        let mut i: usize = 0;
        while i < capacity
            invariant
                i <= capacity,
                pool@.len() == i,
            decreases capacity - i,
        {
            pool.push(T::default());
            i = i + 1;
        }
        MemoryPool { pool, capacity, in_use: 0 }
    }

    /// Hands out the next object while any is left.
    pub fn acquire(&mut self) -> (r: Option<T>)
        requires
            old(self).wf(),
        ensures
            final(self).wf(),
            final(self).spec_capacity() == old(self).spec_capacity(),
            r.is_some() == (old(self).spec_in_use() < old(self).spec_capacity()),
            final(self).spec_in_use() == old(self).spec_in_use() + if r.is_some() { 1nat } else { 0nat },
    {
        if self.in_use < self.capacity {
            let obj = self.pool[self.in_use].clone();
            self.in_use = self.in_use + 1;
            Some(obj)
        } else {
            None
        }
    }

    /// Takes an object back.
    pub fn release(&mut self, obj: T)
        requires
            old(self).wf(),
        ensures
            final(self).wf(),
            final(self).spec_capacity() == old(self).spec_capacity(),
            final(self).spec_in_use() == if old(self).spec_in_use() > 0 {
                (old(self).spec_in_use() - 1) as nat
            } else {
                0nat
            },
    {
        if self.in_use > 0 {
            self.in_use = self.in_use - 1;
        }
    }

    /// Objects handed out and the pool's size.
    pub fn usage(&self) -> (r: (usize, usize))
        ensures
            r.0 == self.spec_in_use(),
            r.1 == self.spec_capacity(),
    {
        (self.in_use, self.capacity)
    }
}

/// Cache line size, and the alignment of buffer lengths.
pub const CACHE_LINE_SIZE: usize = 64;

/// `size` rounded up to a whole number of cache lines.
pub open spec fn aligned_len(size: int) -> int {
    (size + 63) / 64 * 64
}

/// A zeroed byte buffer whose length is a whole number of cache lines.
pub struct CacheOptimizedBuffer {
    data: Vec<u8>,
    alignment: usize,
    cache_line_size: usize,
}

impl CacheOptimizedBuffer {
    pub closed spec fn bytes(&self) -> Seq<u8> {
        self.data@
    }

    /// A zeroed buffer of at least `size` bytes, rounded up to cache lines.
    pub fn new(size: usize) -> (b: Self)
        requires
            size <= usize::MAX - 63,
        ensures
            b.bytes().len() == aligned_len(size as int),
            forall|i: int| 0 <= i < b.bytes().len() ==> #[trigger] b.bytes()[i] == 0,
    {
        let aligned_size = (size + 63) / 64 * 64;
        let mut data: Vec<u8> = Vec::new();
        let mut i: usize = 0;
        while i < aligned_size
            invariant
                i <= aligned_size,
                data@.len() == i,
                forall|j: int| 0 <= j < i ==> #[trigger] data@[j] == 0,
            decreases aligned_size - i,
        {
            data.push(0);
            i = i + 1;
        }
        CacheOptimizedBuffer { data, alignment: CACHE_LINE_SIZE, cache_line_size: CACHE_LINE_SIZE }
    }

    /// Length in bytes.
    pub fn len(&self) -> (n: usize)
        ensures
            n == self.bytes().len(),
    {
        self.data.len()
    }

    pub fn is_empty(&self) -> (r: bool)
        ensures
            r == (self.bytes().len() == 0),
    {
        self.data.len() == 0
    }

    /// Whether `[offset, offset + len)` lies inside the buffer.
    pub fn in_bounds(&self, offset: usize, len: usize) -> (r: bool)
        ensures
            r == (offset + len <= self.bytes().len()),
    {
        offset <= self.data.len() && len <= self.data.len() - offset
    }

    /// Writes back the cache lines of `[offset, offset + len)`. The buffer's
    /// contents are not changed; a range outside the buffer is ignored.
    pub fn flush_cache(&self, offset: usize, len: usize) {
        if self.in_bounds(offset, len) {
            // Plain memory needs no explicit write-back.
        }
    }
}

/// Element-wise arithmetic on vectors of field elements.
pub struct VectorizedOps;

/// Byte `k` (least significant first) of `h`.
pub open spec fn le_byte(h: u64, k: int) -> u8 {
    ((h >> ((8 * k) as u64)) & 0xff) as u8
}

/// `s` holds byte `i % 8` of `h` at each position `i` below 32.
pub open spec fn spread_of(h: u64, s: Seq<u8>) -> bool {
    forall|i: int| 0 <= i < 32 ==> #[trigger] s[i] == le_byte(h, i % 8)
}

impl VectorizedOps {
    /// `result[i] = a[i] + b[i]`, wrapping, when the three lengths agree.
    pub fn field_add_avx256(a: &[u64], b: &[u64], result: &mut [u64]) -> (r: Result<(), MemoryError>)
        ensures
            r is Ok <==> (a@.len() == b@.len() && a@.len() == old(result)@.len()),
            r is Err ==> final(result)@ == old(result)@,
            r is Ok ==> final(result)@.len() == a@.len() && forall|i: int| 0 <= i < a@.len()
                ==> #[trigger] final(result)@[i] == vstd::wrapping::u64_specs::wrapping_add(a@[i], b@[i]),
    {
        if a.len() != b.len() || a.len() != result.len() {
            return Err(MemoryError::LengthMismatch);
        }
        let mut i: usize = 0;
        while i < a.len()
            invariant
                i <= a@.len(),
                a@.len() == b@.len(),
                result@.len() == a@.len(),
                forall|j: int| 0 <= j < i ==> #[trigger] result@[j] == vstd::wrapping::u64_specs::wrapping_add(a@[j], b@[j]),
            decreases a@.len() - i,
        {
            result[i] = a[i].wrapping_add(b[i]);
            i = i + 1;
        }
        Ok(())
    }

    /// `result[i] = a[i] * b[i]`, wrapping, when the three lengths agree.
    pub fn field_mul_avx256(a: &[u64], b: &[u64], result: &mut [u64]) -> (r: Result<(), MemoryError>)
        ensures
            r is Ok <==> (a@.len() == b@.len() && a@.len() == old(result)@.len()),
            r is Err ==> final(result)@ == old(result)@,
            r is Ok ==> final(result)@.len() == a@.len() && forall|i: int| 0 <= i < a@.len()
                ==> #[trigger] final(result)@[i] == vstd::wrapping::u64_specs::wrapping_mul(a@[i], b@[i]),
    {
        if a.len() != b.len() || a.len() != result.len() {
            return Err(MemoryError::LengthMismatch);
        }
        let mut i: usize = 0;
        while i < a.len()
            invariant
                i <= a@.len(),
                a@.len() == b@.len(),
                result@.len() == a@.len(),
                forall|j: int| 0 <= j < i ==> #[trigger] result@[j] == vstd::wrapping::u64_specs::wrapping_mul(a@[j], b@[j]),
            decreases a@.len() - i,
        {
            result[i] = a[i].wrapping_mul(b[i]);
            i = i + 1;
        }
        Ok(())
    }

    /// The same element-wise wrapping addition, on the other vector unit.
    pub fn field_add_neon(a: &[u64], b: &[u64], result: &mut [u64]) -> (r: Result<(), MemoryError>)
        ensures
            r is Ok <==> (a@.len() == b@.len() && a@.len() == old(result)@.len()),
            r is Err ==> final(result)@ == old(result)@,
            r is Ok ==> final(result)@.len() == a@.len() && forall|i: int| 0 <= i < a@.len()
                ==> #[trigger] final(result)@[i] == vstd::wrapping::u64_specs::wrapping_add(a@[i], b@[i]),
    {
        Self::field_add_avx256(a, b, result)
    }

    /// Spreads a 64-bit digest over a 32-byte buffer: byte `i` of the buffer
    /// is byte `i % 8` of the digest, least significant first.
    pub fn spread_digest(h: u64, result: &mut [u8; 32])
        ensures
            forall|i: int| 0 <= i < 32 ==> #[trigger] final(result)@[i] == le_byte(h, i % 8),
    {
        let mut i: usize = 0;
        while i < 32
            invariant
                i <= 32,
                result@.len() == 32,
                forall|j: int| 0 <= j < i ==> #[trigger] result@[j] == le_byte(h, j % 8),
            decreases 32 - i,
        {
            let k: u64 = (i % 8) as u64;
            result[i] = ((h >> (8 * k)) & 0xff) as u8;
            i = i + 1;
        }
    }

    /// Fills `result` from the standard hasher's digest of `data`, written
    /// as one byte string.
    pub fn hash_avx256(data: &[u8], result: &mut [u8; 32]) -> (r: Result<(), MemoryError>)
        ensures
            r is Ok,
            spread_of(DefaultHasher::spec_finish(seq![data@]), final(result)@),
    {
        let mut hasher = DefaultHasher::new();
        hasher.write(data);
        let h = hasher.finish();
        assert(hasher@ =~= seq![data@]);
        Self::spread_digest(h, result);
        Ok(())
    }
}

} // verus!
