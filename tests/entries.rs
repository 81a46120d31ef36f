use ockernel::entry::{
    PageDirEntry, PageTableEntry, PageTableFlags, PageDirFlags, PTF_PRESENT, PTF_READ_WRITE,
    PTF_USER_SUPERVISOR, PTF_COPY_ON_WRITE, PDF_PAGE_ATTRIBUTE_TABLE, PDF_PRESENT,
};
use ockernel::gdt::{
    build_gdt, kernel_tss, GDTEntry, GDTFlags, TaskStateSegment, GDT_CODE_PRIV0, GDT_DATA_PRIV3,
    GDT_TASK_STATE_SEGMENT, TSS_SIZE,
};
use ockernel::syscalls::{is_computer_on, syscall_number, SyscallRegisters};

#[test]
fn table_entry_new_masks_address_and_flags() {
    let e = PageTableEntry::new(0x1234_5678, PageTableFlags(0xf003));
    assert_eq!(e.0, 0x1234_5003);
    assert_eq!(e.get_address(), 0x1234_5000);
    assert_eq!(e.get_flags(), 0x003);
    assert!(!e.is_unused());
}

#[test]
fn table_entry_unused_is_zero() {
    let e = PageTableEntry::new_unused();
    assert_eq!(e.0, 0);
    assert!(e.is_unused());
    let f = PageTableEntry::new(0, PageTableFlags(0));
    assert!(f.is_unused());
}

#[test]
fn table_entry_setters_keep_the_other_half() {
    let mut e = PageTableEntry::new(0xabcd_e000, PageTableFlags(PTF_PRESENT | PTF_READ_WRITE));
    e.set_address(0x0001_2fff);
    assert_eq!(e.get_address(), 0x0001_2000);
    assert_eq!(e.get_flags(), 3);
    e.set_flags(PageTableFlags(PTF_COPY_ON_WRITE | PTF_USER_SUPERVISOR));
    assert_eq!(e.get_address(), 0x0001_2000);
    assert_eq!(e.get_flags(), 0x204);
    e.set_unused();
    assert!(e.is_unused());
    assert_eq!(e.get_address(), 0);
}

#[test]
fn dir_entry_encoding() {
    let mut d = PageDirEntry::new(0x0040_0123, PageTableFlags(0x7));
    assert_eq!(d.0, 0x0040_0007);
    assert_eq!(d.get_address(), 0x0040_0000);
    assert_eq!(d.get_flags(), 7);
    d.set_flags(PageTableFlags(1));
    assert_eq!(d.0, 0x0040_0001);
    d.set_address(0xffff_f000);
    assert_eq!(d.0, 0xffff_f001);
    d.set_unused();
    assert!(d.is_unused());
    assert!(PageDirEntry::new_unused().is_unused());
}

#[test]
fn flag_sets_union_and_contains() {
    let f = PageTableFlags(PTF_PRESENT).union(PageTableFlags(PTF_READ_WRITE));
    assert_eq!(f.0, 3);
    assert!(f.contains(PageTableFlags(PTF_READ_WRITE)));
    assert!(!f.contains(PageTableFlags(PTF_USER_SUPERVISOR)));
    let g = PageDirFlags(PDF_PRESENT).union(PageDirFlags(PDF_PAGE_ATTRIBUTE_TABLE));
    assert_eq!(g.0, 0x1001);
    assert!(g.contains(PageDirFlags(PDF_PAGE_ATTRIBUTE_TABLE)));
}

#[test]
fn gdt_entry_flat_code_segment() {
    let e = GDTEntry::new(0, 0x000f_ffff, GDTFlags(GDT_CODE_PRIV0));
    assert_eq!(e.0, 0x00cf_9a00_0000_ffff);
    let d = GDTEntry::new(0, 0x000f_ffff, GDTFlags(GDT_DATA_PRIV3));
    assert_eq!(d.0, 0x00cf_f200_0000_ffff);
}

#[test]
fn gdt_entry_spreads_base() {
    let e = GDTEntry::new(0x1234_5678, 0x0009_abcd, GDTFlags(GDT_TASK_STATE_SEGMENT));
    assert_eq!(e.0, 0x1209_8934_5678_abcd);
}

#[test]
fn gdt_table_layout() {
    let g = build_gdt(0x1000);
    assert_eq!(g.len(), 6);
    assert_eq!(g[0].0, 0);
    assert_eq!(g[1].0, 0x00cf_9a00_0000_ffff);
    assert_eq!(g[5], GDTEntry::new(0x1000, 0x1000 + TSS_SIZE, GDTFlags(GDT_TASK_STATE_SEGMENT)));
}

#[test]
fn task_state_segment_fields() {
    let z = TaskStateSegment::new();
    assert_eq!(z.esp0, 0);
    assert_eq!(z.ssp, 0);
    let t = kernel_tss(0x1000);
    assert_eq!(t.esp0, 0x1000 + 4096 * 5 - 1);
    assert_eq!(t.ss0, 0x10);
    assert_eq!(t.cs, 0x0b);
    assert_eq!(t.ds, 0x13);
    assert_eq!(t.gs, 0x13);
    assert_eq!(t.eax, 0);
}

#[test]
fn computer_is_on() {
    let mut r = SyscallRegisters { eax: 0, ebx: 9, ecx: 2, edx: 0, esi: 0, edi: 0, ebp: 0 };
    is_computer_on(&mut r);
    assert_eq!(r.ebx, 1);
    assert_eq!(r.ecx, 2);
}

#[test]
fn syscall_numbers() {
    let mut r = SyscallRegisters { eax: 4, ebx: 0, ecx: 0, edx: 0, esi: 0, edi: 0, ebp: 0 };
    assert_eq!(syscall_number(&r), Some(4));
    r.eax = 5;
    assert_eq!(syscall_number(&r), None);
}

#[test]
fn table_flags_description() {
    assert_eq!(
        PageTableFlags(0x3).describe(),
        "PageTableFlags { present, read/write, supervisor mode }"
    );
    assert_eq!(
        PageTableFlags(0x3fc).describe(),
        "PageTableFlags { read only, user + supervisor mode, write thru, cache disable, accessed, dirty, page attribute table, global, copy on write }"
    );
}

#[test]
fn dir_flags_description() {
    assert_eq!(
        PageDirFlags(0x1087).describe(),
        "PageDirFlags { present, read/write, user + supervisor mode, large, page attribute table }"
    );
    assert_eq!(PageDirFlags(0).describe(), "PageDirFlags { read only, supervisor mode }");
}

#[test]
fn entry_descriptions() {
    let e = PageTableEntry::new(0x0012_3000, PageTableFlags(0x3));
    assert_eq!(
        e.describe(),
        "PageTableEntry {\n    address: 0x123000,\n    flags: PageTableFlags { present, read/write, supervisor mode }\n}"
    );
    let d = PageDirEntry::new_unused();
    assert_eq!(
        d.describe(),
        "PageDirEntry {\n    address: 0x0,\n    flags: PageDirFlags { read only, supervisor mode }\n}"
    );
}
