//! The two-level page directory: 1024 lazily created page tables, the
//! physical-address mirror the MMU walks, the frame bitset and the update
//! counter.
use vstd::prelude::*;
use crate::bitset::{
    BitSet,
    is_first_unset,
    lemma_count_bounded,
    lemma_count_full,
    lemma_reuse_after_free,
};
use crate::bump::{
    BumpAllocator,
    OutOfMemory,
    kmalloc,
    block_start,
    PAGE_SIZE,
    EARLY_MEMORY_LIMIT,
};
use crate::entry::{
    PageTableEntry,
    PageTableFlags,
    pack,
    lemma_pack,
    PTF_PRESENT,
    PTF_READ_WRITE,
    PTF_USER_SUPERVISOR,
};

verus! {

/// Number of entries in a page table, and of tables in a directory.
pub const ENTRIES_PER_TABLE: usize = 1024;

/// Flags given to every directory entry that points to a table: present,
/// read/write and user/supervisor.
pub const TABLE_ENTRY_FLAGS: u32 = 0x7;

/// Largest number of frames a 32-bit physical address space holds.
pub const MAX_FRAMES: usize = 0x100000;

/// Index, in the directory, of the table that maps `addr`.
pub open spec fn table_index(addr: u32) -> int {
    addr as int / 0x400000
}

/// Index, in its table, of the entry that maps `addr`.
pub open spec fn entry_index(addr: u32) -> int {
    (addr as int / 4096) % 1024
}

/// The counter after one more update: it wraps to zero past its maximum.
pub open spec fn next_count(c: usize) -> usize {
    if c == usize::MAX {
        0
    } else {
        (c + 1) as usize
    }
}

/// Flags of a freshly mapped page: always present; user-accessible unless
/// kernel-only; writable when asked.
pub open spec fn page_flags(is_kernel: bool, is_writeable: bool) -> u16 {
    (PTF_PRESENT + (if is_kernel {
        0u16
    } else {
        PTF_USER_SUPERVISOR
    }) + (if is_writeable {
        PTF_READ_WRITE
    } else {
        0u16
    })) as u16
}

/// Bytes of bootstrap memory the bitset of `n` frames takes, 32 frames to a
/// 4-byte word.
pub open spec fn bitset_bytes(n: int) -> int {
    (n / 32 + if n % 32 == 0 {
        0int
    } else {
        1int
    }) * 4
}

/// A page table: 1024 entries covering 4 MiB of virtual addresses.
pub struct PageTable {
    pub entries: Vec<PageTableEntry>,
}

impl PageTable {
    /// A table whose entries are all unused.
    pub fn new() -> (r: Self)
        ensures
            r.entries@.len() == ENTRIES_PER_TABLE,
            forall|i: int| 0 <= i < ENTRIES_PER_TABLE ==> #[trigger] r.entries@[i].0 == 0,
    {
        let mut entries: Vec<PageTableEntry> = Vec::new();
        let mut i: usize = 0;
        while i < ENTRIES_PER_TABLE
            invariant
                i <= ENTRIES_PER_TABLE,
                entries@.len() == i,
                forall|j: int| 0 <= j < i ==> #[trigger] entries@[j].0 == 0,
            decreases ENTRIES_PER_TABLE - i,
        {
            entries.push(PageTableEntry::new_unused());
            i = i + 1;
        }
        PageTable { entries }
    }
}

/// Handle to one entry: the slot of its table in the directory and its
/// index in that table.
#[derive(Copy, Clone, PartialEq, Eq, Structural, Debug)]
pub struct PageRef {
    pub table: usize,
    pub entry: usize,
}

/// The handle of the entry that maps `addr`.
pub open spec fn page_ref_of(addr: u32) -> PageRef {
    PageRef { table: table_index(addr) as usize, entry: entry_index(addr) as usize }
}

/// Whether `(t, e)` names an entry of a directory.
pub open spec fn valid_pos(t: int, e: int) -> bool {
    0 <= t < 1024 && 0 <= e < 1024
}

/// A page directory. Tables live in one arena of entries; each slot holds
/// the arena offset of its table, or nothing before the table is created.
pub struct PageDirectory {
    slots: Vec<Option<usize>>,
    pages: Vec<PageTableEntry>,
    tables_physical: Vec<u32>,
    tables_physical_addr: u32,
    frame_set: BitSet,
    page_updates: usize,
}

impl PageDirectory {
    /// Whether the table of slot `t` exists.
    pub closed spec fn present(self, t: int) -> bool {
        self.slots@[t] is Some
    }

    /// Entry `e` of the table of slot `t`; unused when there is no table.
    pub closed spec fn entry(self, t: int, e: int) -> PageTableEntry {
        match self.slots@[t] {
            Some(b) => self.pages@[b + e],
            None => PageTableEntry(0),
        }
    }

    /// Whether entry `(t, e)` maps a frame.
    pub open spec fn mapped(self, t: int, e: int) -> bool {
        self.present(t) && self.entry(t, e).0 != 0
    }

    /// The frame that entry `(t, e)` refers to.
    pub open spec fn frame_of(self, t: int, e: int) -> int {
        self.entry(t, e).address() as int / 4096
    }

    /// Whether virtual address `addr` is mapped.
    pub open spec fn maps(self, addr: u32) -> bool {
        self.mapped(table_index(addr), entry_index(addr))
    }

    /// What virtual address `addr` translates to: the frame address of its
    /// entry with the offset of `addr` within its page, when mapped.
    pub open spec fn translate(self, addr: u32) -> Option<u32> {
        if self.maps(addr) {
            Some(self.entry(table_index(addr), entry_index(addr)).address() | (addr & 0xfff))
        } else {
            None
        }
    }

    /// Allocation state of every frame; `true` is in use.
    pub closed spec fn frames(self) -> Seq<bool> {
        self.frame_set@
    }

    /// Number of frames in use.
    pub closed spec fn frames_used(self) -> usize {
        self.frame_set.bits_used
    }

    /// The update counter.
    pub closed spec fn updates(self) -> usize {
        self.page_updates
    }

    /// The directory entry word the MMU reads for slot `t`.
    pub closed spec fn table_phys(self, t: int) -> u32 {
        self.tables_physical@[t]
    }

    /// Physical address loaded into the MMU's root register.
    pub closed spec fn root(self) -> u32 {
        self.tables_physical_addr
    }

    closed spec fn base(self, t: int) -> int {
        self.slots@[t]->Some_0 as int
    }

    /// The directory's structural invariant: the physical mirror has a
    /// nonzero word exactly where a table exists, tables do not overlap in
    /// the arena, the bitset is consistent, every mapped frame is marked in
    /// use, and no frame is mapped twice.
    pub closed spec fn wf(self) -> bool {
        &&& self.slots@.len() == 1024
        &&& self.tables_physical@.len() == 1024
        &&& forall|t: int|
            0 <= t < 1024 ==> (#[trigger] self.slots@[t] is None <==> self.tables_physical@[t]
                == 0)
        &&& forall|t: int|
            0 <= t < 1024 && #[trigger] self.slots@[t] is Some ==> self.base(t) + 1024
                <= self.pages@.len()
        &&& forall|t1: int, t2: int|
            0 <= t1 < 1024 && 0 <= t2 < 1024 && t1 != t2 && #[trigger] self.slots@[t1] is Some
                && #[trigger] self.slots@[t2] is Some ==> self.base(t1) + 1024 <= self.base(t2)
                || self.base(t2) + 1024 <= self.base(t1)
        &&& self.frame_set.wf()
        &&& self.frame_set.size <= MAX_FRAMES
        &&& forall|t: int, e: int|
            valid_pos(t, e) && #[trigger] self.mapped(t, e) ==> self.frame_of(t, e)
                < self.frame_set.size && self.frame_set@[self.frame_of(t, e)]
        &&& forall|t1: int, e1: int, t2: int, e2: int|
            valid_pos(t1, e1) && valid_pos(t2, e2) && self.mapped(t1, e1) && self.mapped(t2, e2)
                && #[trigger] self.frame_of(t1, e1) == #[trigger] self.frame_of(t2, e2) ==> t1
                == t2 && e1 == e2
    }

    /// Number of frames tracked.
    pub open spec fn frame_count(self) -> nat {
        self.frames().len()
    }

    /// Creates an empty directory for `mem_size` bytes of physical memory,
    /// taking from the bootstrap allocator one page for the physical mirror
    /// and then the bitset's words. Fails, leaving the allocator alone, when
    /// early memory cannot hold both.
    pub fn new(mem_size: usize, bump: &mut BumpAllocator) -> (r: Result<Self, OutOfMemory>)
        requires
            mem_size <= u32::MAX,
        ensures
            ({
                let start = block_start(old(bump).placement as int, true);
                let n = mem_size as int / 4096;
                match r {
                    Ok(d) => {
                        &&& start + 4096 + bitset_bytes(n) < EARLY_MEMORY_LIMIT
                        &&& d.wf()
                        &&& d.root() == start
                        &&& d.frames().len() == n
                        &&& forall|i: int| 0 <= i < n ==> !#[trigger] d.frames()[i]
                        &&& d.frames_used() == 0
                        &&& d.updates() == 0
                        &&& forall|t: int| 0 <= t < 1024 ==> !#[trigger] d.present(t)
                        &&& final(bump).placement == start + 4096 + bitset_bytes(n)
                    }
                    Err(_) => {
                        &&& start + 4096 + bitset_bytes(n) >= EARLY_MEMORY_LIMIT
                        &&& *final(bump) == *old(bump)
                    }
                }
            }),
    {
        let saved = *bump;
        let num_frames: usize = mem_size / PAGE_SIZE;
        let mirror = match kmalloc(bump, 4096, true) {
            Ok(m) => m,
            Err(e) => {
                return Err(e);
            },
        };
        let words: usize = num_frames / 32 + if num_frames % 32 == 0 {
            0usize
        } else {
            1usize
        };
        match kmalloc(bump, words * 4, false) {
            Ok(_) => {},
            Err(e) => {
                *bump = saved;
                return Err(e);
            },
        }
        let mut slots: Vec<Option<usize>> = Vec::new();
        let mut tables_physical: Vec<u32> = Vec::new();
        let mut i: usize = 0;
        while i < ENTRIES_PER_TABLE
            invariant
                i <= ENTRIES_PER_TABLE,
                slots@.len() == i,
                tables_physical@.len() == i,
                forall|j: int| 0 <= j < i ==> #[trigger] slots@[j] is None,
                forall|j: int| 0 <= j < i ==> #[trigger] tables_physical@[j] == 0,
            decreases ENTRIES_PER_TABLE - i,
        {
            slots.push(None);
            tables_physical.push(0);
            i = i + 1;
        }
        let d = PageDirectory {
            slots,
            pages: Vec::new(),
            tables_physical,
            tables_physical_addr: mirror.phys_addr as u32,
            frame_set: BitSet::new(num_frames),
            page_updates: 0,
        };
        assert forall|t: int, e: int| valid_pos(t, e) implies !#[trigger] d.mapped(t, e) by {
            assert(d.slots@[t] is None);
        }
        Ok(d)
    }

    /// The frame bitset.
    pub fn frame_set(&self) -> (r: &BitSet)
        requires
            self.wf(),
        ensures
            r.wf(),
            r@ == self.frames(),
            r.bits_used == self.frames_used(),
    {
        &self.frame_set
    }

    /// The update counter.
    pub fn page_updates(&self) -> (r: usize)
        ensures
            r == self.updates(),
    {
        self.page_updates
    }

    /// Physical address of the mirror, for the MMU's root register.
    pub fn tables_physical_addr(&self) -> (r: u32)
        ensures
            r == self.root(),
    {
        self.tables_physical_addr
    }

    /// The mirror word of slot `t`: zero when it has no table.
    pub fn table_physical(&self, t: usize) -> (r: u32)
        requires
            self.wf(),
            t < ENTRIES_PER_TABLE,
        ensures
            r == self.table_phys(t as int),
            (r == 0) == !self.present(t as int),
    {
        self.tables_physical[t]
    }

    /// The entry named by `page`.
    pub fn entry_at(&self, page: PageRef) -> (r: PageTableEntry)
        requires
            self.wf(),
            valid_pos(page.table as int, page.entry as int),
            self.present(page.table as int),
        ensures
            r == self.entry(page.table as int, page.entry as int),
    {
        let b = match self.slots[page.table] {
            Some(b) => b,
            None => {
                return PageTableEntry::new_unused();
            },
        };
        let n = self.pages.len();
        assert(self.slots@[page.table as int] == Some(b));
        assert(self.base(page.table as int) == b);
        assert(b + 1024 <= n);
        self.pages[b + page.entry]
    }

    /// `other` differs from this directory at most in entry `(t, e)`: the
    /// same tables exist with the same words in the physical mirror, and
    /// every other entry is the same.
    pub open spec fn same_except_entry(self, other: Self, t: int, e: int) -> bool {
        &&& self.root() == other.root()
        &&& forall|t2: int|
            0 <= t2 < 1024 ==> #[trigger] other.present(t2) == self.present(t2)
                && other.table_phys(t2) == self.table_phys(t2)
        &&& forall|t2: int, e2: int|
            valid_pos(t2, e2) && (t2 != t || e2 != e) ==> #[trigger] other.entry(t2, e2)
                == self.entry(t2, e2)
    }

    /// `other` differs from this directory at most in slot `t`: every
    /// other slot has the same table, entries and mirror word, and the
    /// frames and the counter are the same.
    pub open spec fn same_except_table(self, other: Self, t: int) -> bool {
        &&& self.root() == other.root()
        &&& other.frames() == self.frames()
        &&& other.frames_used() == self.frames_used()
        &&& other.updates() == self.updates()
        &&& forall|t2: int|
            0 <= t2 < 1024 && t2 != t ==> #[trigger] other.present(t2) == self.present(t2)
                && other.table_phys(t2) == self.table_phys(t2)
        &&& forall|t2: int, e2: int|
            valid_pos(t2, e2) && t2 != t ==> #[trigger] other.entry(t2, e2) == self.entry(t2, e2)
    }

    /// The handle of the entry that maps `addr`, when its table exists;
    /// never creates anything.
    pub fn find_page(&self, addr: u32) -> (r: Option<PageRef>)
        requires
            self.wf(),
        ensures
            r == if self.present(table_index(addr)) {
                Some(page_ref_of(addr))
            } else {
                None::<PageRef>
            },
    {
        let t = (addr / 0x400000) as usize;
        let e = ((addr / 4096) % 1024) as usize;
        if self.slots[t].is_some() {
            Some(PageRef { table: t, entry: e })
        } else {
            None
        }
    }

    /// The handle of the entry that maps `addr`. When its table does not
    /// exist and `make` is set, the table is created with every entry
    /// unused: its page comes from the bootstrap allocator and its mirror
    /// word is that page's address with the present, read/write and
    /// user/supervisor flags. Without `make`, a missing table gives
    /// nothing. Fails, changing nothing, when the allocator is exhausted.
    pub fn get_page(&mut self, addr: u32, make: bool, bump: &mut BumpAllocator) -> (r: Result<
        Option<PageRef>,
        OutOfMemory,
    >)
        requires
            old(self).wf(),
        ensures
            final(self).wf(),
            ({
                let t = table_index(addr);
                let start = block_start(old(bump).placement as int, true);
                if old(self).present(t) {
                    &&& r == Ok::<Option<PageRef>, OutOfMemory>(Some(page_ref_of(addr)))
                    &&& *final(self) == *old(self)
                    &&& *final(bump) == *old(bump)
                } else if !make {
                    &&& r == Ok::<Option<PageRef>, OutOfMemory>(None)
                    &&& *final(self) == *old(self)
                    &&& *final(bump) == *old(bump)
                } else if start + 4096 < EARLY_MEMORY_LIMIT {
                    &&& r == Ok::<Option<PageRef>, OutOfMemory>(Some(page_ref_of(addr)))
                    &&& final(self).present(t)
                    &&& final(self).table_phys(t) == (start as u32 | TABLE_ENTRY_FLAGS)
                    &&& forall|e: int| 0 <= e < 1024 ==> #[trigger] final(self).entry(t, e).0 == 0
                    &&& old(self).same_except_table(*final(self), t)
                    &&& final(bump).placement == start + 4096
                } else {
                    &&& r == Err::<Option<PageRef>, OutOfMemory>(OutOfMemory)
                    &&& *final(self) == *old(self)
                    &&& *final(bump) == *old(bump)
                }
            }),
    {
        if let Some(p) = self.find_page(addr) {
            return Ok(Some(p));
        }
        if !make {
            return Ok(None);
        }
        let blk = match kmalloc(bump, 4096, true) {
            Ok(m) => m,
            Err(e) => {
                return Err(e);
            },
        };
        let t = (addr / 0x400000) as usize;
        let ghost before = *self;
        let base = self.pages.len();
        let mut table = PageTable::new();
        let ghost fresh = table.entries@;
        self.pages.append(&mut table.entries);
        assert(self.pages@ == before.pages@ + fresh);
        self.slots.set(t, Some(base));
        let phys = blk.phys_addr as u32;
        let word = phys | 0x7;
        assert(phys | 0x7 != 0) by (bit_vector);
        self.tables_physical.set(t, word);
        assert forall|t2: int, e2: int| valid_pos(t2, e2) implies #[trigger] self.entry(t2, e2) == (
        if t2 == t {
            PageTableEntry(0)
        } else {
            before.entry(t2, e2)
        }) by {
            if t2 != t && before.slots@[t2] is Some {
                assert(before.base(t2) + 1024 <= base);
                assert(self.pages@[before.base(t2) + e2] == before.pages@[before.base(t2) + e2]);
            }
            if t2 == t {
                assert(self.pages@[base + e2] == fresh[e2]);
                assert(fresh[e2].0 == 0);
            }
        }
        assert forall|t2: int, e2: int| valid_pos(t2, e2) implies #[trigger] self.mapped(t2, e2)
            == (t2 != t && before.mapped(t2, e2)) by {
            assert(self.entry(t2, e2) == (if t2 == t {
                PageTableEntry(0)
            } else {
                before.entry(t2, e2)
            }));
        }
        assert forall|t1: int, t2: int|
            0 <= t1 < 1024 && 0 <= t2 < 1024 && t1 != t2 && #[trigger] self.slots@[t1] is Some
                && #[trigger] self.slots@[t2] is Some implies self.base(t1) + 1024 <= self.base(t2)
            || self.base(t2) + 1024 <= self.base(t1) by {
            if t1 != t && t2 != t {
                assert(before.slots@[t1] is Some && before.slots@[t2] is Some);
            } else if t1 == t {
                assert(before.slots@[t2] is Some);
            } else {
                assert(before.slots@[t1] is Some);
            }
        }
        assert forall|t1: int, e1: int, t2: int, e2: int|
            valid_pos(t1, e1) && valid_pos(t2, e2) && self.mapped(t1, e1) && self.mapped(t2, e2)
                && #[trigger] self.frame_of(t1, e1) == #[trigger] self.frame_of(t2, e2) implies t1
            == t2 && e1 == e2 by {
            assert(before.mapped(t1, e1) && before.mapped(t2, e2));
            assert(before.frame_of(t1, e1) == before.frame_of(t2, e2));
        }
        assert forall|t2: int, e2: int| valid_pos(t2, e2) && #[trigger] self.mapped(t2, e2) implies self.frame_of(t2, e2)
            < self.frame_set.size && self.frame_set@[self.frame_of(t2, e2)] by {
            assert(before.mapped(t2, e2));
        }
        Ok(Some(PageRef { table: t, entry: ((addr / 4096) % 1024) as usize }))
    }

    /// Maps a frame into entry `page` when the entry is unused: the lowest
    /// free frame of the bitset is marked in use, the entry gets its address
    /// and the flags `page_flags(is_kernel, is_writeable)`, and the update
    /// counter advances by one. An entry already in use is left alone and
    /// gives nothing. Fails, changing nothing, when no frame is free.
    pub fn alloc_frame(&mut self, page: PageRef, is_kernel: bool, is_writeable: bool) -> (r:
        Result<Option<u32>, OutOfMemory>)
        requires
            old(self).wf(),
            valid_pos(page.table as int, page.entry as int),
            old(self).present(page.table as int),
        ensures
            final(self).wf(),
            ({
                let t = page.table as int;
                let e = page.entry as int;
                if old(self).entry(t, e).0 != 0 {
                    &&& r == Ok::<Option<u32>, OutOfMemory>(None)
                    &&& *final(self) == *old(self)
                } else {
                    match r {
                        Ok(Some(a)) => {
                            let f = a as int / 4096;
                            &&& a as int % 4096 == 0
                            &&& is_first_unset(old(self).frames(), Some(f as usize))
                            &&& !old(self).frames()[f]
                            &&& final(self).frames() == old(self).frames().update(f, true)
                            &&& final(self).frames_used() == old(self).frames_used() + 1
                            &&& final(self).entry(t, e) == PageTableEntry(
                                pack(a, page_flags(is_kernel, is_writeable)),
                            )
                            &&& final(self).mapped(t, e)
                            &&& final(self).frame_of(t, e) == f
                            &&& old(self).same_except_entry(*final(self), t, e)
                            &&& final(self).updates() == next_count(old(self).updates())
                        },
                        Ok(None) => false,
                        Err(_) => {
                            &&& is_first_unset(old(self).frames(), None)
                            &&& *final(self) == *old(self)
                        },
                    }
                }
            }),
    {
        let t = page.table;
        let e = page.entry;
        let b = match self.slots[t] {
            Some(b) => b,
            None => {
                return Ok(None);
            },
        };
        let n = self.pages.len();
        assert(self.slots@[t as int] == Some(b));
        assert(b + 1024 <= n);
        assert(self.base(t as int) == b);
        let cur = self.pages[b + e];
        if !cur.is_unused() {
            return Ok(None);
        }
        let idx = match self.frame_set.first_unset() {
            Some(i) => i,
            None => {
                return Err(OutOfMemory);
            },
        };
        let ghost before = *self;
        let mut bits: u16 = PTF_PRESENT;
        if !is_kernel {
            bits = bits + PTF_USER_SUPERVISOR;
        }
        if is_writeable {
            bits = bits + PTF_READ_WRITE;
        }
        assert(bits == page_flags(is_kernel, is_writeable));
        self.frame_set.set(idx);
        let addr = (idx * PAGE_SIZE) as u32;
        let entry = PageTableEntry::new(addr, PageTableFlags(bits));
        proof {
            lemma_pack(addr, bits);
            assert(addr % 4096 == 0 ==> addr & 0xfffff000 == addr) by (bit_vector);
            assert(1 <= bits <= 7 ==> bits & 0x0fff == bits) by (bit_vector);
        }
        self.pages.set(b + e, entry);
        self.page_updates = self.page_updates.wrapping_add(1);
        proof {
            let ti = t as int;
            let ei = e as int;
            assert forall|t2: int, e2: int| valid_pos(t2, e2) implies #[trigger] self.entry(t2, e2)
                == (if t2 == ti && e2 == ei {
                entry
            } else {
                before.entry(t2, e2)
            }) by {
                if t2 != ti && before.slots@[t2] is Some {
                    assert(before.base(t2) + 1024 <= before.base(ti) || before.base(ti) + 1024
                        <= before.base(t2));
                }
            }
            assert(self.frame_of(ti, ei) == idx);
            assert forall|t2: int, e2: int| valid_pos(t2, e2) && #[trigger] self.mapped(t2, e2)
                implies self.frame_of(t2, e2) < self.frame_set.size
                && self.frame_set@[self.frame_of(t2, e2)] by {
                if t2 != ti || e2 != ei {
                    assert(before.mapped(t2, e2));
                }
            }
            assert forall|t1: int, e1: int, t2: int, e2: int|
                valid_pos(t1, e1) && valid_pos(t2, e2) && self.mapped(t1, e1) && self.mapped(
                    t2,
                    e2,
                ) && #[trigger] self.frame_of(t1, e1) == #[trigger] self.frame_of(
                    t2,
                    e2,
                ) implies t1 == t2 && e1 == e2 by {
                if (t1 != ti || e1 != ei) && (t2 != ti || e2 != ei) {
                    assert(before.mapped(t1, e1) && before.mapped(t2, e2));
                    assert(before.frame_of(t1, e1) == before.frame_of(t2, e2));
                } else if t1 != ti || e1 != ei {
                    assert(before.mapped(t1, e1));
                    assert(before.frame_set@[before.frame_of(t1, e1)]);
                } else if t2 != ti || e2 != ei {
                    assert(before.mapped(t2, e2));
                    assert(before.frame_set@[before.frame_of(t2, e2)]);
                }
            }
            assert(old(self).same_except_entry(*self, ti, ei));
        }
        Ok(Some(addr))
    }

    /// Unmaps entry `page` when it is in use: its frame is marked free in
    /// the bitset, the entry becomes unused, the update counter advances by
    /// one, and the frame's address is returned. An unused entry is left
    /// alone and gives nothing.
    pub fn free_frame(&mut self, page: PageRef) -> (r: Option<u32>)
        requires
            old(self).wf(),
            valid_pos(page.table as int, page.entry as int),
            old(self).present(page.table as int),
        ensures
            final(self).wf(),
            ({
                let t = page.table as int;
                let e = page.entry as int;
                if old(self).entry(t, e).0 == 0 {
                    &&& r == None::<u32>
                    &&& *final(self) == *old(self)
                } else {
                    &&& r == Some(old(self).entry(t, e).address())
                    &&& final(self).frames() == old(self).frames().update(old(self).frame_of(t, e), false)
                    &&& final(self).frames_used() == old(self).frames_used() - 1
                    &&& final(self).entry(t, e).0 == 0
                    &&& old(self).same_except_entry(*final(self), t, e)
                    &&& final(self).updates() == next_count(old(self).updates())
                }
            }),
    {
        let t = page.table;
        let e = page.entry;
        let b = match self.slots[t] {
            Some(b) => b,
            None => {
                return None;
            },
        };
        let n = self.pages.len();
        assert(self.slots@[t as int] == Some(b));
        assert(b + 1024 <= n);
        assert(self.base(t as int) == b);
        let cur = self.pages[b + e];
        if cur.is_unused() {
            return None;
        }
        let ghost before = *self;
        let addr = cur.get_address();
        proof {
            assert(before.mapped(t as int, e as int));
        }
        self.frame_set.clear((addr / 4096) as usize);
        self.pages.set(b + e, PageTableEntry::new_unused());
        self.page_updates = self.page_updates.wrapping_add(1);
        proof {
            let ti = t as int;
            let ei = e as int;
            assert forall|t2: int, e2: int| valid_pos(t2, e2) implies #[trigger] self.entry(t2, e2)
                == (if t2 == ti && e2 == ei {
                PageTableEntry(0)
            } else {
                before.entry(t2, e2)
            }) by {
                if t2 != ti && before.slots@[t2] is Some {
                    assert(before.base(t2) + 1024 <= before.base(ti) || before.base(ti) + 1024
                        <= before.base(t2));
                }
            }
            assert forall|t2: int, e2: int| valid_pos(t2, e2) && #[trigger] self.mapped(t2, e2)
                implies self.frame_of(t2, e2) < self.frame_set.size
                && self.frame_set@[self.frame_of(t2, e2)] by {
                assert(before.mapped(t2, e2));
                assert(before.frame_of(t2, e2) != before.frame_of(ti, ei));
            }
            assert forall|t1: int, e1: int, t2: int, e2: int|
                valid_pos(t1, e1) && valid_pos(t2, e2) && self.mapped(t1, e1) && self.mapped(
                    t2,
                    e2,
                ) && #[trigger] self.frame_of(t1, e1) == #[trigger] self.frame_of(
                    t2,
                    e2,
                ) implies t1 == t2 && e1 == e2 by {
                assert(before.mapped(t1, e1) && before.mapped(t2, e2));
                assert(before.frame_of(t1, e1) == before.frame_of(t2, e2));
            }
            assert(old(self).same_except_entry(*self, ti, ei));
        }
        Some(addr)
    }

    /// Translates virtual address `addr`: the frame address of its entry
    /// with the offset of `addr` within its page, or nothing when `addr` is
    /// not mapped.
    pub fn virt_to_phys(&self, addr: u32) -> (r: Option<u32>)
        requires
            self.wf(),
        ensures
            r == self.translate(addr),
    {
        let p = match self.find_page(addr) {
            Some(p) => p,
            None => {
                return None;
            },
        };
        let b = match self.slots[p.table] {
            Some(b) => b,
            None => {
                return None;
            },
        };
        let n = self.pages.len();
        assert(self.slots@[p.table as int] == Some(b));
        assert(b + 1024 <= n);
        assert(self.base(p.table as int) == b);
        let ent = self.pages[b + p.entry];
        if ent.is_unused() {
            None
        } else {
            Some(ent.get_address() | (addr & 0xfff))
        }
    }
}


/// A slot without a table reads as unused entries.
pub proof fn lemma_absent_table(d: PageDirectory, t: int, e: int)
    requires
        !d.present(t),
    ensures
        d.entry(t, e) == PageTableEntry(0),
        !d.mapped(t, e),
{
}


/// No two live mappings share a frame, and every mapped frame is marked in
/// use in the bitset.
pub proof fn lemma_exclusive(d: PageDirectory, t1: int, e1: int, t2: int, e2: int)
    requires
        d.wf(),
        valid_pos(t1, e1),
        valid_pos(t2, e2),
        d.mapped(t1, e1),
        d.mapped(t2, e2),
    ensures
        d.frame_of(t1, e1) < d.frame_count(),
        d.frames()[d.frame_of(t1, e1)],
        d.frame_of(t1, e1) == d.frame_of(t2, e2) ==> t1 == t2 && e1 == e2,
{
}

/// An entry made by mapping frame address `p` translates every virtual
/// address of its page to `p` with the address's offset within the page.
pub proof fn lemma_round_trip(d: PageDirectory, v: u32, p: u32, is_kernel: bool, is_writeable: bool)
    requires
        d.present(table_index(v)),
        d.entry(table_index(v), entry_index(v)) == PageTableEntry(
            pack(p, page_flags(is_kernel, is_writeable)),
        ),
        p % 4096 == 0,
    ensures
        d.translate(v) == Some(p | (v & 0xfff)),
{
    let f = page_flags(is_kernel, is_writeable);
    lemma_pack(p, f);
    assert(p % 4096 == 0 ==> p & 0xfffff000 == p) by (bit_vector);
    assert(1 <= f <= 7 ==> f & 0x0fff == f) by (bit_vector);
}

/// The update counter advances by one and wraps at its maximum, as a
/// wrapping addition of one.
pub proof fn lemma_next_count(c: usize)
    ensures
        next_count(c) == c.wrapping_add(1),
        c < usize::MAX ==> next_count(c) == c + 1,
        c == usize::MAX ==> next_count(c) == 0,
{
}

/// Once every frame is in use no frame is free, so a further frame
/// allocation fails; while a frame is free, one is found.
pub proof fn lemma_exhausted(d: PageDirectory)
    requires
        d.wf(),
    ensures
        d.frames_used() <= d.frame_count(),
        (d.frames_used() == d.frame_count()) <==> is_first_unset(d.frames(), None),
{
    lemma_count_bounded(d.frames());
    lemma_count_full(d.frames());
}


/// An entry is mapped exactly when its word is nonzero.
pub proof fn lemma_mapped_iff_nonzero(d: PageDirectory, t: int, e: int)
    ensures
        d.mapped(t, e) == (d.entry(t, e).0 != 0),
{
}


/// Freeing a mapped entry makes its frame available again: after the free,
/// the lowest free frame exists and is no higher than the freed one.
pub proof fn lemma_freed_frame_reusable(
    before: PageDirectory,
    after: PageDirectory,
    t: int,
    e: int,
    r: Option<usize>,
)
    requires
        before.wf(),
        valid_pos(t, e),
        before.mapped(t, e),
        after.frames() == before.frames().update(before.frame_of(t, e), false),
        is_first_unset(after.frames(), r),
    ensures
        r is Some,
        r.unwrap() <= before.frame_of(t, e),
        !after.frames()[before.frame_of(t, e)],
{
    lemma_exclusive(before, t, e, t, e);
    lemma_reuse_after_free(before.frames(), before.frame_of(t, e), r);
}

} // verus!
