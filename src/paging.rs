//! The per-page address-space operations on an explicitly owned directory.
//! Each operation that changes a mapping reports it, so that the caller
//! invalidates that address in the translation cache.
use vstd::prelude::*;
use crate::bitset::is_first_unset;
use crate::bump::{
    BumpAllocator,
    OutOfMemory,
    block_start,
    EARLY_MEMORY_LIMIT,
    LINKED_BASE,
    PAGE_SIZE,
};
use crate::directory::{
    PageDirectory,
    table_index,
    entry_index,
    page_ref_of,
    page_flags,
    next_count,
    valid_pos,
    lemma_absent_table,
    lemma_mapped_iff_nonzero,
    lemma_exhausted,
    bitset_bytes,
    TABLE_ENTRY_FLAGS,
};
use crate::entry::{PageTableEntry, pack};

verus! {

/// Maps a fresh frame at the page-aligned virtual address `addr`, creating
/// its page table when needed. Returns `true` when a new mapping was made
/// (the address must then be invalidated in the translation cache) and
/// `false` when `addr` was already mapped, in which case nothing changes.
/// Fails when a table is needed and early memory is exhausted, or when no
/// frame is free; the frames, the counter and every mapping are then as
/// they were.
#[verifier::spinoff_prover]
pub fn alloc_page(
    dir: &mut PageDirectory,
    bump: &mut BumpAllocator,
    addr: usize,
    is_kernel: bool,
    is_writeable: bool,
) -> (r: Result<bool, OutOfMemory>)
    requires
        old(dir).wf(),
        addr % PAGE_SIZE == 0,
        addr <= u32::MAX,
    ensures
        final(dir).wf(),
        ({
            let a = addr as u32;
            let t = table_index(a);
            let e = entry_index(a);
            let start = block_start(old(bump).placement as int, true);
            &&& forall|t2: int|
                0 <= t2 < 1024 && t2 != t ==> #[trigger] final(dir).present(t2) == old(dir).present(
                    t2,
                ) && final(dir).table_phys(t2) == old(dir).table_phys(t2)
            &&& old(dir).present(t) ==> {
                &&& *final(bump) == *old(bump)
                &&& final(dir).present(t)
                &&& final(dir).table_phys(t) == old(dir).table_phys(t)
            }
            &&& !old(dir).present(t) && start + 4096 < EARLY_MEMORY_LIMIT ==> {
                &&& final(dir).present(t)
                &&& final(dir).table_phys(t) == (start as u32 | TABLE_ENTRY_FLAGS)
                &&& final(bump).placement == start + 4096
            }
            &&& !old(dir).present(t) && start + 4096 >= EARLY_MEMORY_LIMIT ==> {
                &&& *final(dir) == *old(dir)
                &&& *final(bump) == *old(bump)
            }
            &&& if old(dir).maps(a) {
                &&& r == Ok::<bool, OutOfMemory>(false)
                &&& *final(dir) == *old(dir)
                &&& *final(bump) == *old(bump)
            } else {
                &&& (r is Err) == ((!old(dir).present(t) && block_start(
                    old(bump).placement as int,
                    true,
                ) + 4096 >= EARLY_MEMORY_LIMIT) || is_first_unset(old(dir).frames(), None))
                &&& r != Ok::<bool, OutOfMemory>(false)
                &&& final(dir).root() == old(dir).root()
                &&& forall|t2: int, e2: int|
                    valid_pos(t2, e2) && (t2 != t || e2 != e) ==> #[trigger] final(dir).mapped(
                        t2,
                        e2,
                    ) == old(dir).mapped(t2, e2) && final(dir).entry(t2, e2) == old(dir).entry(
                        t2,
                        e2,
                    )
                &&& r is Ok ==> {
                    &&& final(dir).maps(a)
                    &&& is_first_unset(old(dir).frames(), Some(final(dir).frame_of(t, e) as usize))
                    &&& final(dir).frames() == old(dir).frames().update(
                        final(dir).frame_of(t, e),
                        true,
                    )
                    &&& final(dir).entry(t, e) == PageTableEntry(
                        pack(
                            (final(dir).frame_of(t, e) * 4096) as u32,
                            page_flags(is_kernel, is_writeable),
                        ),
                    )
                    &&& final(dir).updates() == next_count(old(dir).updates())
                }
                &&& r is Err ==> {
                    &&& !final(dir).maps(a)
                    &&& final(dir).frames() == old(dir).frames()
                    &&& final(dir).updates() == old(dir).updates()
                }
            }
        }),
{
    let a = addr as u32;
    let ghost t = table_index(a);
    let ghost e = entry_index(a);
    proof {
        if !old(dir).present(t) {
            assert forall|e2: int| 0 <= e2 < 1024 implies old(dir).entry(t, e2) == PageTableEntry(
                0,
            ) by {
                lemma_absent_table(*old(dir), t, e2);
            }
        }
    }
    let page = match dir.get_page(a, true, bump) {
        Ok(Some(p)) => p,
        Ok(None) => {
            return Ok(false);
        },
        Err(e) => {
            return Err(e);
        },
    };
    assert(page == page_ref_of(a));
    match dir.alloc_frame(page, is_kernel, is_writeable) {
        Ok(Some(f)) => {
            assert(f == (dir.frame_of(t, e) * 4096) as u32);
            Ok(true)
        },
        Ok(None) => Ok(false),
        Err(e) => Err(e),
    }
}

/// Unmaps the page at the page-aligned virtual address `addr` and frees
/// its frame. Returns `true` when a mapping was removed (the address must
/// then be invalidated in the translation cache); freeing an address with
/// no mapping changes nothing and returns `false`.
pub fn free_page(dir: &mut PageDirectory, addr: usize) -> (r: bool)
    requires
        old(dir).wf(),
        addr % PAGE_SIZE == 0,
        addr <= u32::MAX,
    ensures
        final(dir).wf(),
        ({
            let a = addr as u32;
            let t = table_index(a);
            let e = entry_index(a);
            &&& r == old(dir).maps(a)
            &&& !r ==> *final(dir) == *old(dir)
            &&& r ==> {
                &&& !final(dir).maps(a)
                &&& final(dir).frames() == old(dir).frames().update(old(dir).frame_of(t, e), false)
                &&& old(dir).same_except_entry(*final(dir), t, e)
                &&& final(dir).updates() == next_count(old(dir).updates())
            }
        }),
{
    let a = addr as u32;
    let page = match dir.find_page(a) {
        Some(p) => p,
        None => {
            return false;
        },
    };
    dir.free_frame(page).is_some()
}

/// Translates virtual address `addr`; nothing when it is not mapped or
/// does not fit in 32 bits.
pub fn virt_to_phys(dir: &PageDirectory, addr: usize) -> (r: Option<usize>)
    requires
        dir.wf(),
    ensures
        r == if addr <= u32::MAX {
            match dir.translate(addr as u32) {
                Some(p) => Some(p as usize),
                None => None::<usize>,
            }
        } else {
            None::<usize>
        },
{
    if addr > 0xffff_ffffusize {
        return None;
    }
    match dir.virt_to_phys(addr as u32) {
        Some(p) => Some(p as usize),
        None => None,
    }
}


/// Number of the page that entry `(t, e)` maps: its virtual address
/// divided by the page size.
pub open spec fn page_number(t: int, e: int) -> int {
    t * 1024 + e
}

/// Number of pages a walk of `size` bytes in steps of a page visits.
pub open spec fn region_page_count(size: u32) -> int {
    (size as int + 4095) / 4096
}

/// Whether entry `(t, e)` is one of the pages visited by a walk of
/// `[start, start + size)` in steps of a page.
pub open spec fn in_region(start: u32, size: u32, t: int, e: int) -> bool {
    start as int / 4096 <= page_number(t, e) < start as int / 4096 + region_page_count(size)
}

/// Number of directory slots covered by the first `n` pages visited from
/// page number `lo`.
pub open spec fn slots_touched(lo: int, n: int) -> int {
    if n <= 0 {
        0
    } else {
        (lo + n - 1) / 1024 - lo / 1024 + 1
    }
}

/// Number of page tables a walk of `[start, start + size)` may need.
pub open spec fn region_tables(start: u32, size: u32) -> int {
    slots_touched(start as int / 4096, region_page_count(size))
}

/// Every page of `[start, start + size)` is mapped in `d`, walking from
/// `start` in steps of a page.
pub open spec fn maps_region(d: PageDirectory, start: u32, size: u32) -> bool {
    forall|t: int, e: int|
        valid_pos(t, e) && in_region(start, size, t, e) ==> #[trigger] d.mapped(t, e)
}

/// The result of mapping a region over `d`, as far as it got: visited
/// pages below page number `done_end` are mapped, keeping their entry
/// when they were already mapped and otherwise holding a fresh frame with
/// the present, read/write and user flags; every other entry is as in `d`.
pub open spec fn region_result(d: PageDirectory, e2: PageDirectory, lo: int, done_end: int) -> bool {
    forall|t: int, e: int|
        #![trigger e2.entry(t, e)]
        valid_pos(t, e) ==> if lo <= page_number(t, e) < done_end {
            &&& e2.entry(t, e).0 != 0
            &&& d.entry(t, e).0 != 0 ==> e2.entry(t, e) == d.entry(t, e)
            &&& d.entry(t, e).0 == 0 ==> e2.entry(t, e) == PageTableEntry(
                pack((e2.frame_of(t, e) * 4096) as u32, page_flags(false, true)),
            )
        } else {
            e2.entry(t, e) == d.entry(t, e)
        }
}

proof fn lemma_page_of_address(start: u32, off: int)
    requires
        0 <= off,
        off % 4096 == 0,
        start + off <= u32::MAX,
    ensures
        ({
            let a = (start + off) as u32;
            &&& valid_pos(table_index(a), entry_index(a))
            &&& page_number(table_index(a), entry_index(a)) == start as int / 4096 + off / 4096
        }),
{
    let a = (start + off) as u32;
    let p = a as int / 4096;
    assert(p == start as int / 4096 + off / 4096);
    vstd::arithmetic::div_mod::lemma_div_denominator(a as int, 4096, 1024);
    assert(table_index(a) == p / 1024);
}

/// Maps and backs every page of `[start, start + size)`, walking from
/// `start` in steps of a page, each new page with the present, read/write
/// and user flags; used at boot for the kernel image and the initial heap.
/// Pages already mapped keep their entry and entries outside the region do
/// not change. It takes at most one frame per page and, from the bootstrap
/// allocator, at most one page per directory slot the region touches.
/// It fails only when the frames run out, or when early memory cannot hold
/// the tables the region may need; what was mapped before the failure stays.
pub fn alloc_region(dir: &mut PageDirectory, bump: &mut BumpAllocator, start: u32, size: u32) -> (r:
    Result<(), OutOfMemory>)
    requires
        old(dir).wf(),
        start as int + size as int <= u32::MAX,
    ensures
        final(dir).wf(),
        final(dir).root() == old(dir).root(),
        final(dir).frame_count() == old(dir).frame_count(),
        final(dir).frames_used() <= old(dir).frames_used() + region_page_count(size),
        final(bump).placement == old(bump).placement || (final(bump).placement % 4096 == 0
            && final(bump).placement <= block_start(old(bump).placement as int, true) + 4096
            * region_tables(start, size)),
        r is Ok ==> region_result(
            *old(dir),
            *final(dir),
            start as int / 4096,
            start as int / 4096 + region_page_count(size),
        ),
        r is Ok ==> maps_region(*final(dir), start, size),
        r is Err ==> {
            ||| is_first_unset(final(dir).frames(), None) && final(dir).frames_used()
                < old(dir).frames_used() + region_page_count(size)
            ||| block_start(final(bump).placement as int, true) + 4096 >= EARLY_MEMORY_LIMIT
                && block_start(old(bump).placement as int, true) + 4096 * region_tables(
                start,
                size,
            ) >= EARLY_MEMORY_LIMIT
        },
{
    let ghost lo = start as int / 4096;
    let ghost p0 = block_start(bump.placement as int, true);
    let ghost count = region_page_count(size);
    let mut off: u64 = 0;
    while off < size as u64
        invariant
            dir.wf(),
            start as int + size as int <= u32::MAX,
            lo == start as int / 4096,
            p0 == block_start(old(bump).placement as int, true),
            count == region_page_count(size),
            dir.root() == old(dir).root(),
            dir.frame_count() == old(dir).frame_count(),
            off % 4096 == 0,
            off <= size as int + 4095,
            dir.frames_used() <= old(dir).frames_used() + off / 4096,
            region_result(*old(dir), *dir, lo, lo + off / 4096),
            bump.placement == old(bump).placement || (bump.placement % 4096 == 0
                && bump.placement <= p0 + 4096 * slots_touched(lo, off as int / 4096)),
            off > 0 ==> dir.present((lo + off / 4096 - 1) / 1024),
        decreases size as int + 4096 - off,
    {
        let ghost k = off / 4096;
        let a = (start as u64 + off) as u32;
        proof {
            lemma_page_of_address(start, off as int);
            assert(k < count);
            vstd::arithmetic::div_mod::lemma_div_is_ordered(lo + k, lo + count - 1, 1024);
            if k > 0 {
                vstd::arithmetic::div_mod::lemma_div_is_ordered(lo + k - 1, lo + k, 1024);
            }
        }
        let ghost t = table_index(a);
        let ghost e = entry_index(a);
        let ghost before = *dir;
        proof {
            if !before.present(t) {
                assert forall|e2: int| 0 <= e2 < 1024 implies before.entry(t, e2) == PageTableEntry(
                    0,
                ) by {
                    lemma_absent_table(before, t, e2);
                }
            }
        }
        let page = match dir.get_page(a, true, bump) {
            Ok(Some(p)) => p,
            Ok(None) => {
                return Err(OutOfMemory);
            },
            Err(err) => {
                return Err(err);
            },
        };
        let ghost mid = *dir;
        proof {
            assert forall|t2: int, e2: int| valid_pos(t2, e2) implies #[trigger] mid.entry(t2, e2)
                == before.entry(t2, e2) by {
                if t2 == t && !before.present(t) {
                    assert(mid.entry(t2, e2).0 == 0);
                }
            }
            assert(mid.frames_used() == before.frames_used());
            assert(before.entry(t, e) == old(dir).entry(t, e));
            assert(mid.entry(t, e) == old(dir).entry(t, e));
            lemma_mapped_iff_nonzero(mid, t, e);
        }
        match dir.alloc_frame(page, false, true) {
            Ok(_) => {},
            Err(err) => {
                return Err(err);
            },
        }
        proof {
            lemma_mapped_iff_nonzero(*dir, t, e);
            assert(region_result(*old(dir), *dir, lo, lo + (off + 4096) / 4096));
        }
        off = off + 4096;
    }
    proof {
        assert(off / 4096 == count);
        assert forall|t: int, e: int|
            valid_pos(t, e) && in_region(start, size, t, e) implies #[trigger] dir.mapped(t, e) by {
            lemma_mapped_iff_nonzero(*dir, t, e);
        }
    }
    Ok(())
}

/// Sets up paging at boot: a bootstrap allocator whose cursor starts at
/// `kernel_end_phys`, a directory for `mem_size` bytes of memory, the first
/// 4 MiB of physical memory mapped at the kernel's link base, and the
/// initial heap region mapped. The directory is then ready to be loaded
/// into the MMU. It succeeds whenever there are frames for both regions and
/// early memory holds the directory, the bitset and the tables the regions
/// may need.
pub fn init(kernel_end_phys: usize, mem_size: usize, heap_start: u32, heap_size: u32) -> (r:
    Result<(PageDirectory, BumpAllocator), OutOfMemory>)
    requires
        mem_size <= u32::MAX,
        heap_start as int + heap_size as int <= u32::MAX,
    ensures
        ({
            let n = mem_size as int / 4096;
            let after_bitset = block_start(kernel_end_phys as int, true) + 4096 + bitset_bytes(n);
            n >= 1024 + region_page_count(heap_size) && after_bitset + 4095 + 4096 * (1
                + region_tables(heap_start, heap_size)) < EARLY_MEMORY_LIMIT ==> r is Ok
        }),
        r is Ok ==> {
            let d = r->Ok_0.0;
            &&& d.wf()
            &&& d.root() == block_start(kernel_end_phys as int, true)
            &&& d.frame_count() == mem_size as int / 4096
            &&& maps_region(d, LINKED_BASE as u32, EARLY_MEMORY_LIMIT as u32)
            &&& maps_region(d, heap_start, heap_size)
        },
{
    let mut bump = BumpAllocator::new(kernel_end_phys);
    let ghost n = mem_size as int / 4096;
    let ghost p1 = block_start(kernel_end_phys as int, true) + 4096 + bitset_bytes(n);
    let mut dir = match PageDirectory::new(mem_size, &mut bump) {
        Ok(d) => d,
        Err(e) => {
            return Err(e);
        },
    };
    proof {
        lemma_exhausted(dir);
    }
    match alloc_region(&mut dir, &mut bump, LINKED_BASE as u32, EARLY_MEMORY_LIMIT as u32) {
        Ok(()) => {},
        Err(e) => {
            proof {
                lemma_exhausted(dir);
                assert(region_tables(LINKED_BASE as u32, EARLY_MEMORY_LIMIT as u32) == 1);
            }
            return Err(e);
        },
    }
    let ghost kernel = dir;
    proof {
        lemma_exhausted(dir);
        assert(region_tables(LINKED_BASE as u32, EARLY_MEMORY_LIMIT as u32) == 1);
        assert(region_page_count(EARLY_MEMORY_LIMIT as u32) == 1024);
    }
    match alloc_region(&mut dir, &mut bump, heap_start, heap_size) {
        Ok(()) => {},
        Err(e) => {
            proof {
                lemma_exhausted(dir);
            }
            return Err(e);
        },
    }
    proof {
        assert forall|t: int, e: int|
            valid_pos(t, e) && in_region(
                LINKED_BASE as u32,
                EARLY_MEMORY_LIMIT as u32,
                t,
                e,
            ) implies #[trigger] dir.mapped(t, e) by {
            assert(kernel.mapped(t, e));
            lemma_mapped_iff_nonzero(kernel, t, e);
            lemma_mapped_iff_nonzero(dir, t, e);
        }
    }
    Ok((dir, bump))
}

} // verus!
