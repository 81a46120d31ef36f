use ockernel::bitset::BitSet;
use ockernel::bump::{bump_alloc, kmalloc, BumpAllocator, MallocResult, OutOfMemory};
use ockernel::directory::{PageDirectory, PageRef};
use ockernel::entry::PageTableEntry;
use ockernel::paging::{alloc_page, alloc_region, free_page, init, virt_to_phys};

fn fresh(frames: usize) -> (PageDirectory, BumpAllocator) {
    let mut b = BumpAllocator::new(0x10_0000);
    let d = PageDirectory::new(frames * 4096, &mut b).unwrap();
    (d, b)
}

#[test]
fn bitset_set_clear_and_count() {
    let mut s = BitSet::new(40);
    assert_eq!(s.first_unset(), Some(0));
    s.set(0);
    s.set(0);
    s.set(33);
    assert_eq!(s.bits_used, 2);
    assert!(s.test(33));
    assert!(!s.test(32));
    assert_eq!(s.first_unset(), Some(1));
    s.clear(33);
    s.clear(33);
    assert_eq!(s.bits_used, 1);
    assert!(!s.test(33));
}

#[test]
fn bitset_reuse_after_free() {
    let mut s = BitSet::new(8);
    for i in 0..8 {
        s.set(i);
    }
    assert_eq!(s.first_unset(), None);
    assert_eq!(s.bits_used, 8);
    s.clear(5);
    assert_eq!(s.first_unset(), Some(5));
}

#[test]
fn kmalloc_aligns_to_next_page() {
    let mut b = BumpAllocator::new(0x1001);
    let m = kmalloc(&mut b, 0x10, true).unwrap();
    assert_eq!(m, MallocResult { pointer: 0xc000_2000, phys_addr: 0x2000 });
    assert_eq!(b.placement, 0x2010);
    let n = kmalloc(&mut b, 4, false).unwrap();
    assert_eq!(n.phys_addr, 0x2010);
    let p = kmalloc(&mut b, 4, true).unwrap();
    assert_eq!(p.phys_addr, 0x3000);
}

#[test]
fn kmalloc_keeps_an_aligned_cursor() {
    let mut b = BumpAllocator::new(0x5000);
    let m = kmalloc(&mut b, 0x1000, true).unwrap();
    assert_eq!(m.phys_addr, 0x5000);
    assert_eq!(b.placement, 0x6000);
}

#[test]
fn kmalloc_fails_at_the_ceiling() {
    let mut b = BumpAllocator::new(0x3f_f000);
    assert_eq!(kmalloc(&mut b, 0x1000, true), Err(OutOfMemory));
    assert_eq!(b.placement, 0x3f_f000);
    assert!(kmalloc(&mut b, 0xfff, true).is_ok());
}

#[test]
fn bump_alloc_aligns() {
    let mut b = BumpAllocator::new(0x1003);
    assert_eq!(bump_alloc(&mut b, 8, 16), Ok(0xc000_1010));
    assert_eq!(b.placement, 0x1018);
    assert_eq!(bump_alloc(&mut b, 8, 8), Ok(0xc000_1018));
    assert_eq!(bump_alloc(&mut b, 0x40_0000, 1), Err(OutOfMemory));
    assert_eq!(b.placement, 0x1020);
}

#[test]
fn new_directory_is_empty() {
    let mut b = BumpAllocator::new(0x10_0001);
    let d = PageDirectory::new(64 * 4096, &mut b).unwrap();
    assert_eq!(d.tables_physical_addr(), 0x10_1000);
    assert_eq!(b.placement, 0x10_1000 + 4096 + 8);
    assert_eq!(d.page_updates(), 0);
    assert_eq!(d.frame_set().size, 64);
    assert_eq!(d.frame_set().bits_used, 0);
    for t in 0..1024 {
        assert_eq!(d.table_physical(t), 0);
    }
}

#[test]
fn new_directory_fails_without_early_memory() {
    let mut b = BumpAllocator::new(0x3f_f800);
    assert!(PageDirectory::new(64 * 4096, &mut b).is_err());
    assert_eq!(b.placement, 0x3f_f800);
}

#[test]
fn get_page_creates_tables_on_request() {
    let (mut d, mut b) = fresh(8);
    assert_eq!(d.get_page(0x0040_3000, false, &mut b), Ok(None));
    assert_eq!(b.placement, 0x10_1004);
    let p = d.get_page(0x0040_3000, true, &mut b).unwrap().unwrap();
    assert_eq!(p, PageRef { table: 1, entry: 3 });
    assert_eq!(d.table_physical(1), 0x10_2007);
    assert_eq!(d.table_physical(0), 0);
    assert_eq!(b.placement, 0x10_3000);
    assert!(d.entry_at(p).is_unused());
    assert_eq!(d.get_page(0x0040_3000, false, &mut b), Ok(Some(p)));
    assert_eq!(d.get_page(0x0040_3000, true, &mut b), Ok(Some(p)));
    assert_eq!(b.placement, 0x10_3000);
}

#[test]
fn alloc_frame_only_fills_unused_entries() {
    let (mut d, mut b) = fresh(8);
    let p = d.get_page(0x5000, true, &mut b).unwrap().unwrap();
    assert_eq!(d.alloc_frame(p, false, true), Ok(Some(0)));
    assert_eq!(d.entry_at(p), PageTableEntry(0x7));
    assert_eq!(d.alloc_frame(p, true, false), Ok(None));
    assert_eq!(d.page_updates(), 1);
    let q = d.get_page(0x6000, true, &mut b).unwrap().unwrap();
    assert_eq!(d.alloc_frame(q, true, false), Ok(Some(0x1000)));
    assert_eq!(d.entry_at(q), PageTableEntry(0x1001));
    assert_eq!(d.free_frame(p), Some(0));
    assert_eq!(d.free_frame(p), None);
    assert_eq!(d.page_updates(), 3);
}

#[test]
fn round_trip_keeps_offset() {
    let (mut d, mut b) = fresh(8);
    assert_eq!(alloc_page(&mut d, &mut b, 0x1000, true, true), Ok(true));
    assert_eq!(alloc_page(&mut d, &mut b, 0xc000_0000, false, false), Ok(true));
    assert_eq!(virt_to_phys(&d, 0x1000), Some(0));
    assert_eq!(virt_to_phys(&d, 0x1abc), Some(0xabc));
    assert_eq!(virt_to_phys(&d, 0xc000_0123), Some(0x1123));
    assert_eq!(d.virt_to_phys(0xc000_0fff), Some(0x1fff));
    assert_eq!(virt_to_phys(&d, 0x2000), None);
    assert_eq!(virt_to_phys(&d, 0x0080_0000), None);
}

#[test]
fn alloc_page_twice_does_nothing() {
    let (mut d, mut b) = fresh(8);
    assert_eq!(alloc_page(&mut d, &mut b, 0x1000, true, true), Ok(true));
    assert_eq!(alloc_page(&mut d, &mut b, 0x1000, false, false), Ok(false));
    assert_eq!(d.page_updates(), 1);
    assert_eq!(d.frame_set().bits_used, 1);
}

#[test]
fn free_of_unmapped_page_is_noop() {
    let (mut d, mut b) = fresh(8);
    assert!(!free_page(&mut d, 0x1000));
    assert_eq!(alloc_page(&mut d, &mut b, 0x1000, true, true), Ok(true));
    assert!(!free_page(&mut d, 0x2000));
    assert!(!free_page(&mut d, 0x0100_0000));
    assert_eq!(d.page_updates(), 1);
    assert_eq!(d.frame_set().bits_used, 1);
    assert!(free_page(&mut d, 0x1000));
    assert!(!free_page(&mut d, 0x1000));
    assert_eq!(d.page_updates(), 2);
    assert_eq!(d.frame_set().bits_used, 0);
}

#[test]
fn counter_increments_by_one_per_change() {
    let (mut d, mut b) = fresh(8);
    let mut expected: usize = 0;
    for i in 1..5usize {
        assert_eq!(alloc_page(&mut d, &mut b, i * 0x1000, true, true), Ok(true));
        expected += 1;
        assert_eq!(d.page_updates(), expected);
    }
    assert!(free_page(&mut d, 0x2000));
    assert_eq!(d.page_updates(), expected + 1);
    assert_eq!(expected.wrapping_add(1), d.page_updates());
}

#[test]
fn exhaustion_fails_instead_of_reusing() {
    let (mut d, mut b) = fresh(2);
    assert_eq!(alloc_page(&mut d, &mut b, 0x1000, true, true), Ok(true));
    assert_eq!(alloc_page(&mut d, &mut b, 0x2000, true, true), Ok(true));
    assert_eq!(alloc_page(&mut d, &mut b, 0x3000, true, true), Err(OutOfMemory));
    assert_eq!(virt_to_phys(&d, 0x3000), None);
    assert_eq!(d.page_updates(), 2);
    assert_eq!(virt_to_phys(&d, 0x1000), Some(0));
    assert_eq!(virt_to_phys(&d, 0x2000), Some(0x1000));
}

#[test]
fn eight_frame_scenario() {
    let (mut d, mut b) = fresh(8);
    let mut seen: Vec<usize> = Vec::new();
    for i in 1..=8usize {
        assert_eq!(alloc_page(&mut d, &mut b, i * 0x1000, true, true), Ok(true));
        let p = virt_to_phys(&d, i * 0x1000).unwrap();
        assert!(p / 4096 < 8);
        assert!(!seen.contains(&p));
        seen.push(p);
    }
    assert_eq!(d.frame_set().bits_used, 8);
    assert_eq!(d.frame_set().first_unset(), None);
    let freed = virt_to_phys(&d, 0x4000).unwrap();
    assert!(free_page(&mut d, 0x4000));
    assert_eq!(d.frame_set().bits_used, 7);
    assert_eq!(d.frame_set().first_unset(), Some(freed / 4096));
    assert_eq!(alloc_page(&mut d, &mut b, 0x9000, true, true), Ok(true));
    assert_eq!(virt_to_phys(&d, 0x9000), Some(freed));
    assert_eq!(d.frame_set().bits_used, 8);
}

#[test]
fn alloc_region_maps_every_page() {
    let (mut d, mut b) = fresh(16);
    assert_eq!(alloc_region(&mut d, &mut b, 0x0040_0800, 0x3000), Ok(()));
    assert_eq!(virt_to_phys(&d, 0x0040_0000), Some(0));
    assert_eq!(virt_to_phys(&d, 0x0040_1000), Some(0x1000));
    assert_eq!(virt_to_phys(&d, 0x0040_2000), Some(0x2000));
    assert_eq!(virt_to_phys(&d, 0x0040_3000), None);
    let p = d.get_page(0x0040_0000, false, &mut b).unwrap().unwrap();
    assert_eq!(d.entry_at(p), PageTableEntry(0x7));
}

#[test]
fn init_maps_kernel_and_heap() {
    let r = init(0x20_0000, 8 * 1024 * 1024, 0xe000_0000, 0x4000);
    let (d, _) = r.unwrap();
    assert_eq!(d.frame_set().bits_used, 1024 + 4);
    assert_eq!(virt_to_phys(&d, 0xc000_0000), Some(0));
    assert_eq!(virt_to_phys(&d, 0xc03f_f000), Some(0x3f_f000));
    assert_eq!(virt_to_phys(&d, 0xe000_3000), Some(0x403000));
    assert_eq!(virt_to_phys(&d, 0xe000_4000), None);
}

#[test]
fn init_fails_when_memory_is_short() {
    assert!(init(0x20_0000, 1024 * 4096, 0xe000_0000, 0x1000).is_err());
}

#[test]
fn find_page_never_creates() {
    let (mut d, mut b) = fresh(8);
    assert_eq!(d.find_page(0x0080_1000), None);
    assert_eq!(d.table_physical(2), 0);
    assert_eq!(alloc_page(&mut d, &mut b, 0x0080_1000, false, true), Ok(true));
    assert_eq!(d.find_page(0x0080_2fff), Some(PageRef { table: 2, entry: 2 }));
    let p = d.find_page(0x0080_1000).unwrap();
    assert_eq!(d.entry_at(p), PageTableEntry(0x7));
}

#[test]
fn page_table_starts_unused() {
    let t = ockernel::directory::PageTable::new();
    assert_eq!(t.entries.len(), 1024);
    assert!(t.entries.iter().all(|e| e.is_unused()));
}

#[test]
fn alloc_region_keeps_existing_entries() {
    let (mut d, mut b) = fresh(16);
    assert_eq!(alloc_page(&mut d, &mut b, 0x0040_1000, true, false), Ok(true));
    assert_eq!(alloc_page(&mut d, &mut b, 0x0040_5000, true, false), Ok(true));
    assert_eq!(alloc_region(&mut d, &mut b, 0x0040_0000, 0x3000), Ok(()));
    let kept = d.find_page(0x0040_1000).unwrap();
    assert_eq!(d.entry_at(kept), PageTableEntry(0x1));
    assert_eq!(virt_to_phys(&d, 0x0040_0000), Some(0x2000));
    assert_eq!(virt_to_phys(&d, 0x0040_2000), Some(0x3000));
    let outside = d.find_page(0x0040_5000).unwrap();
    assert_eq!(d.entry_at(outside), PageTableEntry(0x1001));
    assert_eq!(d.frame_set().bits_used, 4);
}

#[test]
fn alloc_region_fails_when_frames_run_out() {
    let (mut d, mut b) = fresh(2);
    assert_eq!(alloc_region(&mut d, &mut b, 0x1000, 0x3000), Err(OutOfMemory));
    assert_eq!(d.frame_set().first_unset(), None);
    assert_eq!(virt_to_phys(&d, 0x2000), Some(0x1000));
    assert_eq!(virt_to_phys(&d, 0x3000), None);
}

#[test]
fn alloc_page_creates_missing_table() {
    let (mut d, mut b) = fresh(8);
    assert_eq!(b.placement, 0x10_1004);
    assert_eq!(alloc_page(&mut d, &mut b, 0x0080_0000, true, true), Ok(true));
    assert_eq!(d.table_physical(2), 0x10_2007);
    assert_eq!(d.table_physical(3), 0);
    assert_eq!(b.placement, 0x10_3000);
}
