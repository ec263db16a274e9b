//! Per-worker bump allocator for scratch memory.
//!
//! Each worker thread owns exactly one arena, so allocation never contends
//! with another thread.  Allocation is O(1): the cursor is bumped past an
//! aligned offset.  Release is O(1) and wholesale: `reset` moves the cursor
//! back to zero and thereby invalidates every allocation made since.
//!
//! The arena hands out byte offsets into its buffer rather than addresses.
//! Callers that turn an offset into a live view of the buffer must not keep
//! that view past the scope's reset; that discipline is the caller's, not
//! the type system's.  The bytes behind an offset are not cleared between
//! scopes, so callers must not assume zeroed memory.

use vstd::arithmetic::div_mod::{lemma_fundamental_div_mod, lemma_mod_multiples_basic};
use vstd::prelude::*;

verus! {

/// Default arena capacity per worker thread: 1 MiB.
pub const DEFAULT_ARENA_SIZE: usize = 1024 * 1024;

/// Smallest multiple of `align` that is at least `offset`.
pub open spec fn spec_aligned_up(offset: int, align: int) -> int {
    if offset % align == 0 {
        offset
    } else {
        offset + align - offset % align
    }
}

/// Whether a request for `size` bytes at alignment `align` fits in an arena
/// whose cursor stands at `used` of `capacity` bytes.
pub open spec fn can_alloc(used: int, capacity: int, size: int, align: int) -> bool {
    spec_aligned_up(used, align) + size <= capacity
}

/// Fixed-capacity byte buffer plus a bump cursor.
pub struct ThreadArena {
    buffer: Vec<u8>,
    offset: usize,
}

impl ThreadArena {
    /// Total capacity in bytes, fixed for the arena's lifetime.
    pub closed spec fn spec_capacity(&self) -> int {
        self.buffer@.len() as int
    }

    /// Bytes consumed so far: the bump cursor.
    pub closed spec fn spec_used(&self) -> int {
        self.offset as int
    }

    /// The cursor never passes the capacity.
    pub open spec fn wf(&self) -> bool {
        0 <= self.spec_used() <= self.spec_capacity()
    }

    /// Create an arena of `size` bytes with the cursor at zero.
    pub fn new(size: usize) -> (arena: Self)
        ensures
            arena.wf(),
            arena.spec_capacity() == size,
            arena.spec_used() == 0,
    {
        let mut buffer: Vec<u8> = Vec::new();
        while buffer.len() < size
            invariant
                buffer@.len() <= size,
            decreases size - buffer@.len(),
        {
            buffer.push(0u8);
        }
        ThreadArena { buffer, offset: 0 }
    }

    /// Create an arena of the default capacity.
    pub fn with_default_size() -> (arena: Self)
        ensures
            arena.wf(),
            arena.spec_capacity() == DEFAULT_ARENA_SIZE,
            arena.spec_used() == 0,
    {
        Self::new(DEFAULT_ARENA_SIZE)
    }

    /// Allocate `size` bytes at alignment `align` and return the offset of
    /// the allocation, or `None` exactly when the aligned request would pass
    /// the capacity.  Exhaustion is a recoverable result, never a fault, and
    /// the arena never grows.
    pub fn alloc_bytes(&mut self, size: usize, align: usize) -> (r: Option<usize>)
        requires
            old(self).wf(),
            align >= 1,
        ensures
            final(self).wf(),
            final(self).spec_capacity() == old(self).spec_capacity(),
            r is Some <==> can_alloc(
                old(self).spec_used(),
                old(self).spec_capacity(),
                size as int,
                align as int,
            ),
            match r {
                Some(off) => off == spec_aligned_up(old(self).spec_used(), align as int)
                    && off as int % align as int == 0
                    && old(self).spec_used() <= off as int
                    && off + size <= final(self).spec_capacity()
                    && final(self).spec_used() == off + size,
                None => final(self).spec_used() == old(self).spec_used(),
            },
    {
        let rem: usize = self.offset % align;
        let pad: usize = if rem == 0 {
            0
        } else {
            align - rem
        };
        let avail: usize = self.buffer.len() - self.offset;
        if pad > avail {
            return None;
        }
        let aligned: usize = self.offset + pad;
        let remaining: usize = self.buffer.len() - aligned;
        if size > remaining {
            return None;
        }
        proof {
            lemma_aligned_up_correct(self.offset as int, align as int);
        }
        self.offset = aligned + size;
        Some(aligned)
    }

    /// Allocate room for `count` elements of `elem_size` bytes each, at
    /// alignment `align`.  The offset returned is a byte offset.
    pub fn alloc_elems(&mut self, count: usize, elem_size: usize, align: usize) -> (r: Option<
        usize,
    >)
        requires
            old(self).wf(),
            align >= 1,
            count * elem_size <= usize::MAX,
        ensures
            final(self).wf(),
            final(self).spec_capacity() == old(self).spec_capacity(),
            r is Some <==> can_alloc(
                old(self).spec_used(),
                old(self).spec_capacity(),
                count * elem_size,
                align as int,
            ),
            match r {
                Some(off) => off == spec_aligned_up(old(self).spec_used(), align as int)
                    && off as int % align as int == 0
                    && old(self).spec_used() <= off as int
                    && off + count * elem_size <= final(self).spec_capacity()
                    && final(self).spec_used() == off + count * elem_size,
                None => final(self).spec_used() == old(self).spec_used(),
            },
    {
        let size: usize = count * elem_size;
        self.alloc_bytes(size, align)
    }

    /// Move the cursor back to zero, invalidating all prior allocations.
    /// O(1); the buffer's bytes are left as they are.
    pub fn reset(&mut self)
        ensures
            final(self).wf(),
            final(self).spec_used() == 0,
            final(self).spec_capacity() == old(self).spec_capacity(),
    {
        self.offset = 0;
    }

    /// Bytes consumed so far.
    pub fn used_bytes(&self) -> (r: usize)
        ensures
            r == self.spec_used(),
    {
        self.offset
    }

    /// Total capacity in bytes.
    pub fn capacity(&self) -> (r: usize)
        ensures
            r == self.spec_capacity(),
    {
        self.buffer.len()
    }

    /// Bytes still free past the cursor.
    pub fn available_bytes(&self) -> (r: usize)
        requires
            self.wf(),
        ensures
            r == self.spec_capacity() - self.spec_used(),
    {
        self.buffer.len() - self.offset
    }
}

/// Run `f` with exclusive use of `arena`, then reset the cursor before
/// handing the arena back: the scope owns the reset, so every allocation
/// made inside `f` is invalid once `with_arena` returns.
pub fn with_arena<R, F: FnOnce(ThreadArena) -> (ThreadArena, R)>(arena: ThreadArena, f: F) -> (res: (
    ThreadArena,
    R,
))
    requires
        call_requires(f, (arena,)),
    ensures
        res.0.wf(),
        res.0.spec_used() == 0,
        exists|mid: ThreadArena|
            call_ensures(f, (arena,), (mid, res.1)) && res.0.spec_capacity()
                == mid.spec_capacity(),
{
    let (a0, r) = f(arena);
    let ghost mid = a0;
    let mut a = a0;
    a.reset();
    let out = (a, r);
    proof {
        assert(call_ensures(f, (arena,), (mid, out.1)));
        assert(out.0.spec_capacity() == mid.spec_capacity());
    }
    out
}

/// Report (used, capacity, available) for an arena.
pub fn arena_stats(arena: &ThreadArena) -> (r: (usize, usize, usize))
    requires
        arena.wf(),
    ensures
        r.0 == arena.spec_used(),
        r.1 == arena.spec_capacity(),
        r.2 == arena.spec_capacity() - arena.spec_used(),
{
    (arena.used_bytes(), arena.capacity(), arena.available_bytes())
}

/// With the cursor at zero, any request of up to the whole capacity at
/// alignment one succeeds: resetting restores the arena's full room.
pub proof fn lemma_reset_enables_alloc(capacity: int, size: int)
    requires
        0 <= size <= capacity,
    ensures
        can_alloc(0, capacity, size, 1),
{
}

/// Once `capacity` bytes are consumed, any request for at least one byte is
/// refused, whatever its alignment.
pub proof fn lemma_exhausted_arena_rejects(capacity: int, size: int, align: int)
    requires
        align >= 1,
        size >= 1,
        capacity >= 0,
    ensures
        !can_alloc(capacity, capacity, size, align),
{
}

/// Two allocations made in sequence return increasing, non-overlapping
/// offsets, each honoring its requested alignment: the first occupies
/// `[o1, o1 + size1)`, and the second begins at or past its end.
pub proof fn lemma_sequential_allocs_disjoint(
    used: int,
    size1: int,
    align1: int,
    size2: int,
    align2: int,
)
    requires
        0 <= used,
        0 <= size1,
        0 <= size2,
        align1 >= 1,
        align2 >= 1,
    ensures
        ({
            let o1 = spec_aligned_up(used, align1);
            let o2 = spec_aligned_up(o1 + size1, align2);
            o1 % align1 == 0 && o2 % align2 == 0 && used <= o1 && o1 + size1 <= o2
        }),
{
    lemma_aligned_up_correct(used, align1);
    lemma_aligned_up_correct(spec_aligned_up(used, align1) + size1, align2);
}

/// `spec_aligned_up` returns the least multiple of `align` at or past
/// `offset`.
pub proof fn lemma_aligned_up_correct(offset: int, align: int)
    requires
        0 <= offset,
        align >= 1,
    ensures
        spec_aligned_up(offset, align) % align == 0,
        offset <= spec_aligned_up(offset, align) < offset + align,
{
    let q = offset / align;
    let rem = offset % align;
    lemma_fundamental_div_mod(offset, align);
    if rem != 0 {
        assert(spec_aligned_up(offset, align) == align * q + align);
        assert(align * q + align == (q + 1) * align) by (nonlinear_arith);
        lemma_mod_multiples_basic(q + 1, align);
    }
}

} // verus!
