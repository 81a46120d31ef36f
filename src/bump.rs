//! Bootstrap bump allocator: hands out ever-increasing physical memory
//! before any general-purpose allocator exists. Nothing it hands out is
//! ever freed.
use vstd::prelude::*;

verus! {

/// Size of a page and of a frame.
pub const PAGE_SIZE: usize = 4096;

/// Virtual address at which the kernel is linked; physical address zero
/// appears at this address in the kernel's view.
pub const LINKED_BASE: usize = 0xc0000000;

/// Ceiling of early memory: the cursor must stay below it.
pub const EARLY_MEMORY_LIMIT: usize = 0x400000;

/// Early memory is exhausted.
#[derive(Copy, Clone, PartialEq, Eq, Structural, Debug)]
pub struct OutOfMemory;

/// Result of a bootstrap allocation.
#[derive(Copy, Clone, PartialEq, Eq, Structural, Debug)]
pub struct MallocResult {
    /// Kernel-virtual address of the block.
    pub pointer: usize,
    /// Physical address of the block.
    pub phys_addr: usize,
}

/// The cursor of the bootstrap allocator.
#[derive(Copy, Clone, PartialEq, Eq, Structural, Debug)]
pub struct BumpAllocator {
    /// Physical address of the next free byte.
    pub placement: usize,
}

/// `c` rounded up to a multiple of `a`.
pub open spec fn align_up(c: int, a: int) -> int {
    if c % a == 0 {
        c
    } else {
        c - c % a + a
    }
}

/// Where an allocation made at cursor `c` starts: the next page boundary
/// when page alignment is asked for, else the cursor itself.
pub open spec fn block_start(c: int, page_aligned: bool) -> int {
    if page_aligned {
        align_up(c, PAGE_SIZE as int)
    } else {
        c
    }
}

impl BumpAllocator {
    /// An allocator whose cursor starts at physical address `placement`,
    /// normally the first byte after the kernel image.
    pub fn new(placement: usize) -> (r: Self)
        ensures
            r.placement == placement,
    {
        BumpAllocator { placement }
    }
}

/// Takes `size` bytes from early memory, starting at the next page boundary
/// when `align` is set. Fails, leaving the cursor alone, when the cursor
/// would reach the early-memory ceiling.
pub fn kmalloc(bump: &mut BumpAllocator, size: usize, align: bool) -> (r: Result<
    MallocResult,
    OutOfMemory,
>)
    ensures
        ({
            let start = block_start(old(bump).placement as int, align);
            match r {
                Ok(m) => {
                    &&& start + size < EARLY_MEMORY_LIMIT
                    &&& m.phys_addr == start
                    &&& m.pointer == start + LINKED_BASE
                    &&& final(bump).placement == start + size
                }
                Err(_) => {
                    &&& start + size >= EARLY_MEMORY_LIMIT
                    &&& *final(bump) == *old(bump)
                }
            }
        }),
{
    let cursor = bump.placement;
    if cursor >= EARLY_MEMORY_LIMIT {
        return Err(OutOfMemory);
    }
    let start: usize = if align && cursor % PAGE_SIZE != 0 {
        cursor - cursor % PAGE_SIZE + PAGE_SIZE
    } else {
        cursor
    };
    if start >= EARLY_MEMORY_LIMIT || size >= EARLY_MEMORY_LIMIT - start {
        return Err(OutOfMemory);
    }
    bump.placement = start + size;
    Ok(MallocResult { pointer: start + LINKED_BASE, phys_addr: start })
}

/// Takes `size` bytes from early memory, starting at the next multiple of
/// `alignment`, and returns the kernel-virtual address of the block. Fails,
/// leaving the cursor alone, when the cursor would reach the ceiling.
pub fn bump_alloc(bump: &mut BumpAllocator, size: usize, alignment: usize) -> (r: Result<
    usize,
    OutOfMemory,
>)
    requires
        alignment > 0,
    ensures
        ({
            let start = align_up(old(bump).placement as int, alignment as int);
            match r {
                Ok(p) => {
                    &&& start + size < EARLY_MEMORY_LIMIT
                    &&& p == start + LINKED_BASE
                    &&& final(bump).placement == start + size
                }
                Err(_) => {
                    &&& start + size >= EARLY_MEMORY_LIMIT
                    &&& *final(bump) == *old(bump)
                }
            }
        }),
{
    let cursor = bump.placement;
    if cursor >= EARLY_MEMORY_LIMIT {
        return Err(OutOfMemory);
    }
    let offset: usize = if cursor % alignment != 0 {
        alignment - cursor % alignment
    } else {
        0
    };
    if offset >= EARLY_MEMORY_LIMIT - cursor {
        return Err(OutOfMemory);
    }
    let start = cursor + offset;
    if size >= EARLY_MEMORY_LIMIT - start {
        return Err(OutOfMemory);
    }
    bump.placement = start + size;
    Ok(start + LINKED_BASE)
}

} // verus!
