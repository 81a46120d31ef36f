//! Global descriptor table entries and the task-state segment, as set up
//! during early boot.
use vstd::prelude::*;

verus! {

/// Code or data descriptor (as opposed to a system descriptor).
pub const GDT_DESC_TYPE_CODE_DATA: u32 = 1 << 4;
/// Segment present.
pub const GDT_PRESENT: u32 = 1 << 7;
/// 32-bit segment.
pub const GDT_SIZE32: u32 = 1 << 14;
/// Limit counted in 4 KiB units.
pub const GDT_GRAN_LARGE: u32 = 1 << 15;
/// Privilege level 1.
pub const GDT_PRIV1: u32 = 1 << 5;
/// Privilege level 2.
pub const GDT_PRIV2: u32 = 2 << 5;
/// Privilege level 3.
pub const GDT_PRIV3: u32 = 3 << 5;
/// Accessed.
pub const GDT_DATA_ACCESSED: u32 = 0x01;
/// Readable code or writable data.
pub const GDT_DATA_READ_WRITE: u32 = 0x02;
/// Expand-down data, or conforming code.
pub const GDT_DATA_EXPAND_DOWN: u32 = 0x04;
/// Executable.
pub const GDT_DATA_EXECUTE: u32 = 0x08;

/// Ring 0 code segment.
pub const GDT_CODE_PRIV0: u32 = GDT_DESC_TYPE_CODE_DATA | GDT_PRESENT | GDT_SIZE32 | GDT_GRAN_LARGE
    | GDT_DATA_EXECUTE | GDT_DATA_READ_WRITE;
/// Ring 0 data segment.
pub const GDT_DATA_PRIV0: u32 = GDT_DESC_TYPE_CODE_DATA | GDT_PRESENT | GDT_SIZE32 | GDT_GRAN_LARGE
    | GDT_DATA_READ_WRITE;
/// Ring 3 code segment.
pub const GDT_CODE_PRIV3: u32 = GDT_DESC_TYPE_CODE_DATA | GDT_PRESENT | GDT_SIZE32 | GDT_GRAN_LARGE
    | GDT_PRIV3 | GDT_DATA_EXECUTE | GDT_DATA_READ_WRITE;
/// Ring 3 data segment.
pub const GDT_DATA_PRIV3: u32 = GDT_DESC_TYPE_CODE_DATA | GDT_PRESENT | GDT_SIZE32 | GDT_GRAN_LARGE
    | GDT_PRIV3 | GDT_DATA_READ_WRITE;
/// Task-state segment descriptor.
pub const GDT_TASK_STATE_SEGMENT: u32 = GDT_PRESENT | GDT_DATA_EXECUTE | GDT_DATA_ACCESSED;

/// Number of descriptors after the null descriptor.
pub const GDT_ENTRIES: usize = 5;

/// Bytes of a task-state segment.
pub const TSS_SIZE: u32 = 104;

/// Bytes of the kernel stack used on a switch to ring 0.
pub const STACK_SIZE: u32 = 4096 * 5;

/// Flags of a descriptor: the access byte in bits 0-7 and the flag nibble
/// in bits 12-15.
#[derive(Copy, Clone, PartialEq, Eq, Structural, Debug)]
pub struct GDTFlags(pub u32);

/// The 64-bit descriptor for a segment: limit bits 0-15, then base bits
/// 0-23, the access byte, limit bits 16-19, the flag nibble and base bits
/// 24-31.
pub open spec fn descriptor(base: u32, limit: u32, flags: u32) -> u64 {
    ((limit & 0xffff) as u64) | (((base & 0xffffff) as u64) << 16u64) | (((flags & 0xff) as u64)
        << 40u64) | ((((limit >> 16u32) & 0xf) as u64) << 48u64) | ((((flags >> 12u32) & 0xf) as u64)
        << 52u64) | (((base >> 24u32) as u64) << 56u64)
}

/// Entry of the global descriptor table.
#[derive(Copy, Clone, PartialEq, Eq, Structural, Debug)]
pub struct GDTEntry(pub u64);

impl GDTEntry {
    /// Encodes a segment of `base` and `limit` with `flags`.
    pub fn new(base: u32, limit: u32, flags: GDTFlags) -> (r: Self)
        ensures
            r.0 == descriptor(base, limit, flags.0),
    {
        let f = flags.0;
        let mut d: u64;
        d = (limit & 0x000F0000) as u64;
        d = d | ((f << 8u32) & 0x00F0FF00) as u64;
        d = d | ((base >> 16u32) & 0x000000FF) as u64;
        d = d | (base & 0xFF000000) as u64;
        d = d << 32u64;
        d = d | (base << 16u32) as u64;
        d = d | (limit & 0x0000FFFF) as u64;
        assert(d == descriptor(base, limit, f)) by (bit_vector)
            requires
                d == ((((((limit & 0x000F0000) as u64) | (((f << 8u32) & 0x00F0FF00) as u64)) | (((
                base >> 16u32) & 0x000000FF) as u64) | ((base & 0xFF000000) as u64)) << 32u64) | ((
                base << 16u32) as u64)) | ((limit & 0x0000FFFF) as u64),
        ;
        GDTEntry(d)
    }
}


/// Task-state segment: the processor reads the ring-0 stack from it on a
/// switch from user mode.
#[derive(Copy, Clone, PartialEq, Eq, Structural, Debug)]
pub struct TaskStateSegment {
    pub link: u32,
    pub esp0: u32,
    pub ss0: u32,
    pub esp1: u32,
    pub ss1: u32,
    pub esp2: u32,
    pub ss2: u32,
    pub cr3: u32,
    pub eip: u32,
    pub eflags: u32,
    pub eax: u32,
    pub ecx: u32,
    pub edx: u32,
    pub ebx: u32,
    pub esp: u32,
    pub ebp: u32,
    pub esi: u32,
    pub edi: u32,
    pub es: u32,
    pub cs: u32,
    pub ss: u32,
    pub ds: u32,
    pub fs: u32,
    pub gs: u32,
    pub ldtr: u32,
    pub iopb: u16,
    pub ssp: u16,
}

/// Every field of `r` is zero.
pub open spec fn tss_is_zero(r: TaskStateSegment) -> bool {
    &&& r.link == 0
    &&& r.esp0 == 0
    &&& r.ss0 == 0
    &&& r.esp1 == 0
    &&& r.ss1 == 0
    &&& r.esp2 == 0
    &&& r.ss2 == 0
    &&& r.cr3 == 0
    &&& r.eip == 0
    &&& r.eflags == 0
    &&& r.eax == 0
    &&& r.ecx == 0
    &&& r.edx == 0
    &&& r.ebx == 0
    &&& r.esp == 0
    &&& r.ebp == 0
    &&& r.esi == 0
    &&& r.edi == 0
    &&& r.es == 0
    &&& r.cs == 0
    &&& r.ss == 0
    &&& r.ds == 0
    &&& r.fs == 0
    &&& r.gs == 0
    &&& r.ldtr == 0
    &&& r.iopb == 0
    &&& r.ssp == 0
}

impl TaskStateSegment {
    /// A segment with every field zero.
    pub fn new() -> (r: Self)
        ensures
            tss_is_zero(r),
    {
        Self {
            link: 0,
            esp0: 0,
            ss0: 0,
            esp1: 0,
            ss1: 0,
            esp2: 0,
            ss2: 0,
            cr3: 0,
            eip: 0,
            eflags: 0,
            eax: 0,
            ecx: 0,
            edx: 0,
            ebx: 0,
            esp: 0,
            ebp: 0,
            esi: 0,
            edi: 0,
            es: 0,
            cs: 0,
            ss: 0,
            ds: 0,
            fs: 0,
            gs: 0,
            ldtr: 0,
            iopb: 0,
            ssp: 0,
        }
    }
}

/// The kernel's task-state segment for a ring-0 stack at `stack_base`: the
/// stack pointer at the stack's last byte, the kernel data segment for the
/// stack, the ring-3 code segment and the ring-3 data segments; every other
/// field zero.
pub fn kernel_tss(stack_base: u32) -> (r: TaskStateSegment)
    requires
        stack_base as int + STACK_SIZE <= u32::MAX,
    ensures
        r.ss0 == 0x10,
        r.esp0 == stack_base + STACK_SIZE - 1,
        r.cs == 0x0b,
        r.ds == 0x13,
        r.es == 0x13,
        r.fs == 0x13,
        r.gs == 0x13,
        tss_is_zero((TaskStateSegment { ss0: 0, esp0: 0, cs: 0, ds: 0, es: 0, fs: 0, gs: 0, ..r })),
{
    let mut t = TaskStateSegment::new();
    t.ss0 = 0x10;
    t.esp0 = stack_base + STACK_SIZE - 1;
    t.cs = 0x0b;
    t.ds = 0x13;
    t.es = 0x13;
    t.fs = 0x13;
    t.gs = 0x13;
    t
}

/// The descriptor table: the null descriptor, flat 4 GiB code and data
/// segments for rings 0 and 3, and the task-state segment at `tss_base`.
pub fn build_gdt(tss_base: u32) -> (r: Vec<GDTEntry>)
    requires
        tss_base as int + TSS_SIZE <= u32::MAX,
    ensures
        r@ == seq![
            GDTEntry(0),
            GDTEntry(descriptor(0, 0x000fffff, GDT_CODE_PRIV0)),
            GDTEntry(descriptor(0, 0x000fffff, GDT_DATA_PRIV0)),
            GDTEntry(descriptor(0, 0x000fffff, GDT_CODE_PRIV3)),
            GDTEntry(descriptor(0, 0x000fffff, GDT_DATA_PRIV3)),
            GDTEntry(descriptor(tss_base, (tss_base + TSS_SIZE) as u32, GDT_TASK_STATE_SEGMENT)),
        ],
{
    let mut r: Vec<GDTEntry> = Vec::new();
    r.push(GDTEntry(0));
    r.push(GDTEntry::new(0, 0x000fffff, GDTFlags(GDT_CODE_PRIV0)));
    r.push(GDTEntry::new(0, 0x000fffff, GDTFlags(GDT_DATA_PRIV0)));
    r.push(GDTEntry::new(0, 0x000fffff, GDTFlags(GDT_CODE_PRIV3)));
    r.push(GDTEntry::new(0, 0x000fffff, GDTFlags(GDT_DATA_PRIV3)));
    r.push(GDTEntry::new(tss_base, tss_base + TSS_SIZE, GDTFlags(GDT_TASK_STATE_SEGMENT)));
    assert(r@ =~= seq![
        GDTEntry(0),
        GDTEntry(descriptor(0, 0x000fffff, GDT_CODE_PRIV0)),
        GDTEntry(descriptor(0, 0x000fffff, GDT_DATA_PRIV0)),
        GDTEntry(descriptor(0, 0x000fffff, GDT_CODE_PRIV3)),
        GDTEntry(descriptor(0, 0x000fffff, GDT_DATA_PRIV3)),
        GDTEntry(descriptor(tss_base, (tss_base + TSS_SIZE) as u32, GDT_TASK_STATE_SEGMENT)),
    ]);
    r
}

} // verus!
