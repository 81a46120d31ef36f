//! Packed hardware records for the two levels of the x86 non-PAE page walk.
use vstd::prelude::*;
use vstd::string::{StrSliceExecFns, StringExecFns};

verus! {

/// Bits of an entry that hold the frame address.
pub const ADDRESS_MASK: u32 = 0xfffff000;

/// Bits of an entry that hold the flags.
pub const FLAGS_MASK: u32 = 0x00000fff;

/// Page is present in memory and can be accessed.
pub const PTF_PRESENT: u16 = 1;
/// Code can read and write the page; without it the page is read only.
pub const PTF_READ_WRITE: u16 = 2;
/// Page is accessible in user mode; without it only the supervisor may use it.
pub const PTF_USER_SUPERVISOR: u16 = 4;
/// Write-through caching instead of write-back.
pub const PTF_WRITE_THRU: u16 = 8;
/// Caching is disabled for this page.
pub const PTF_CACHE_DISABLE: u16 = 16;
/// Set by the processor when the page is used in a translation.
pub const PTF_ACCESSED: u16 = 32;
/// Set by the processor when the page is written.
pub const PTF_DIRTY: u16 = 64;
/// Page attribute table selector.
pub const PTF_PAGE_ATTRIBUTE_TABLE: u16 = 128;
/// Translation survives a reload of the root register.
pub const PTF_GLOBAL: u16 = 256;
/// Reserved for copy-on-write; inert metadata in this version.
pub const PTF_COPY_ON_WRITE: u16 = 512;

/// Pages are present in memory and can be accessed.
pub const PDF_PRESENT: u16 = 1;
/// Pages can be written; without it every page of the table is read only.
pub const PDF_READ_WRITE: u16 = 2;
/// Pages are accessible in user mode.
pub const PDF_USER_SUPERVISOR: u16 = 4;
/// Write-through caching instead of write-back.
pub const PDF_WRITE_THRU: u16 = 8;
/// Caching is disabled.
pub const PDF_CACHE_DISABLE: u16 = 16;
/// Set by the processor when the table is used in a translation.
pub const PDF_ACCESSED: u16 = 32;
/// Set on a write; only meaningful for large pages.
pub const PDF_DIRTY: u16 = 64;
/// Large (4 MiB) pages; not supported here.
pub const PDF_PAGE_SIZE: u16 = 128;
/// Translation survives a reload of the root register.
pub const PDF_GLOBAL: u16 = 256;
/// Page attribute table selector.
pub const PDF_PAGE_ATTRIBUTE_TABLE: u16 = 4096;

/// Set of page table entry flags, as the bits of the low half-word.
#[derive(Copy, Clone, PartialEq, Eq, Structural, Debug)]
pub struct PageTableFlags(pub u16);

/// Set of page directory entry flags. Flags absent here override the flags
/// of every entry in the table the directory entry points to.
#[derive(Copy, Clone, PartialEq, Eq, Structural, Debug)]
pub struct PageDirFlags(pub u16);

/// `t` when `c` holds, else nothing.
pub open spec fn text_if(c: bool, t: Seq<char>) -> Seq<char> {
    if c {
        t
    } else {
        Seq::empty()
    }
}

/// Whether `bits` has any bit of `mask`.
pub open spec fn has_flag(bits: u16, mask: u16) -> bool {
    bits & mask != 0
}

fn push_if(s: &mut String, c: bool, t: &str)
    ensures
        final(s)@ == old(s)@ + text_if(c, t@),
{
    if c {
        s.append(t);
    } else {
        assert(s@ =~= s@ + Seq::<char>::empty());
    }
}

fn push_either(s: &mut String, c: bool, yes: &str, no: &str)
    ensures
        final(s)@ == old(s)@ + if c {
            yes@
        } else {
            no@
        },
{
    if c {
        s.append(yes);
    } else {
        s.append(no);
    }
}

/// Readable form of a set of page table flags.
pub open spec fn table_flags_text(b: u16) -> Seq<char> {
    "PageTableFlags {"@ + text_if(has_flag(b, PTF_PRESENT), " present,"@) + if has_flag(
        b,
        PTF_READ_WRITE,
    ) {
        " read/write"@
    } else {
        " read only"@
    } + if has_flag(b, PTF_USER_SUPERVISOR) {
        ", user + supervisor mode"@
    } else {
        ", supervisor mode"@
    } + text_if(has_flag(b, PTF_WRITE_THRU), ", write thru"@) + text_if(
        has_flag(b, PTF_CACHE_DISABLE),
        ", cache disable"@,
    ) + text_if(has_flag(b, PTF_ACCESSED), ", accessed"@) + text_if(
        has_flag(b, PTF_DIRTY),
        ", dirty"@,
    ) + text_if(has_flag(b, PTF_PAGE_ATTRIBUTE_TABLE), ", page attribute table"@) + text_if(
        has_flag(b, PTF_GLOBAL),
        ", global"@,
    ) + text_if(has_flag(b, PTF_COPY_ON_WRITE), ", copy on write"@) + " }"@
}

/// Readable form of a set of page directory flags.
pub open spec fn dir_flags_text(b: u16) -> Seq<char> {
    "PageDirFlags {"@ + text_if(has_flag(b, PDF_PRESENT), " present,"@) + if has_flag(
        b,
        PDF_READ_WRITE,
    ) {
        " read/write"@
    } else {
        " read only"@
    } + if has_flag(b, PDF_USER_SUPERVISOR) {
        ", user + supervisor mode"@
    } else {
        ", supervisor mode"@
    } + text_if(has_flag(b, PDF_WRITE_THRU), ", write thru"@) + text_if(
        has_flag(b, PDF_CACHE_DISABLE),
        ", cache disable"@,
    ) + text_if(has_flag(b, PDF_ACCESSED), ", accessed"@) + text_if(
        has_flag(b, PDF_DIRTY),
        ", dirty"@,
    ) + text_if(has_flag(b, PDF_PAGE_SIZE), ", large"@) + text_if(
        has_flag(b, PDF_GLOBAL),
        ", global"@,
    ) + text_if(has_flag(b, PDF_PAGE_ATTRIBUTE_TABLE), ", page attribute table"@) + " }"@
}

impl PageTableFlags {
    /// Readable form of the set, naming each flag present and the access
    /// mode.
    pub fn describe(&self) -> (r: String)
        ensures
            r@ == table_flags_text(self.0),
    {
        let b = self.0;
        let mut s = String::from_str("PageTableFlags {");
        push_if(&mut s, b & PTF_PRESENT != 0, " present,");
        push_either(&mut s, b & PTF_READ_WRITE != 0, " read/write", " read only");
        push_either(&mut s, b & PTF_USER_SUPERVISOR != 0, ", user + supervisor mode", ", supervisor mode");
        push_if(&mut s, b & PTF_WRITE_THRU != 0, ", write thru");
        push_if(&mut s, b & PTF_CACHE_DISABLE != 0, ", cache disable");
        push_if(&mut s, b & PTF_ACCESSED != 0, ", accessed");
        push_if(&mut s, b & PTF_DIRTY != 0, ", dirty");
        push_if(&mut s, b & PTF_PAGE_ATTRIBUTE_TABLE != 0, ", page attribute table");
        push_if(&mut s, b & PTF_GLOBAL != 0, ", global");
        push_if(&mut s, b & PTF_COPY_ON_WRITE != 0, ", copy on write");
        s.append(" }");
        s
    }

    /// The union of two flag sets.
    pub fn union(self, other: PageTableFlags) -> (r: PageTableFlags)
        ensures
            r.0 == self.0 | other.0,
    {
        PageTableFlags(self.0 | other.0)
    }

    /// Whether every flag of `other` is in this set.
    pub fn contains(self, other: PageTableFlags) -> (r: bool)
        ensures
            r == (self.0 & other.0 == other.0),
    {
        self.0 & other.0 == other.0
    }
}

impl PageDirFlags {
    /// Readable form of the set, naming each flag present and the access
    /// mode.
    pub fn describe(&self) -> (r: String)
        ensures
            r@ == dir_flags_text(self.0),
    {
        let b = self.0;
        let mut s = String::from_str("PageDirFlags {");
        push_if(&mut s, b & PDF_PRESENT != 0, " present,");
        push_either(&mut s, b & PDF_READ_WRITE != 0, " read/write", " read only");
        push_either(&mut s, b & PDF_USER_SUPERVISOR != 0, ", user + supervisor mode", ", supervisor mode");
        push_if(&mut s, b & PDF_WRITE_THRU != 0, ", write thru");
        push_if(&mut s, b & PDF_CACHE_DISABLE != 0, ", cache disable");
        push_if(&mut s, b & PDF_ACCESSED != 0, ", accessed");
        push_if(&mut s, b & PDF_DIRTY != 0, ", dirty");
        push_if(&mut s, b & PDF_PAGE_SIZE != 0, ", large");
        push_if(&mut s, b & PDF_GLOBAL != 0, ", global");
        push_if(&mut s, b & PDF_PAGE_ATTRIBUTE_TABLE != 0, ", page attribute table");
        s.append(" }");
        s
    }

    /// The union of two flag sets.
    pub fn union(self, other: PageDirFlags) -> (r: PageDirFlags)
        ensures
            r.0 == self.0 | other.0,
    {
        PageDirFlags(self.0 | other.0)
    }

    /// Whether every flag of `other` is in this set.
    pub fn contains(self, other: PageDirFlags) -> (r: bool)
        ensures
            r == (self.0 & other.0 == other.0),
    {
        self.0 & other.0 == other.0
    }
}

/// The frame address held by a raw 32-bit entry.
pub open spec fn address_of(raw: u32) -> u32 {
    raw & ADDRESS_MASK
}

/// The flag bits held by a raw 32-bit entry.
pub open spec fn flags_of(raw: u32) -> u32 {
    raw & FLAGS_MASK
}

/// The raw entry made of an address and a set of flags.
pub open spec fn pack(addr: u32, flags: u16) -> u32 {
    (addr & ADDRESS_MASK) | ((flags & 0x0fff) as u32)
}

proof fn lemma_low_flags(flags: u16)
    ensures
        (flags & 0x0fff) <= 0x0fff,
        ((flags & 0x0fff) as u32) <= 0x0fff,
{
    assert((flags & 0x0fff) <= 0x0fff) by (bit_vector);
}

proof fn lemma_split(a: u32, f: u32)
    requires
        f <= 0x0fff,
    ensures
        ((a & 0xfffff000) | f) & 0xfffff000 == a & 0xfffff000,
        ((a & 0xfffff000) | f) & 0x0fff == f,
        ((a & 0xfffff000) | f) == 0 <==> (a & 0xfffff000 == 0 && f == 0),
{
    assert(((a & 0xfffff000) | f) & 0xfffff000 == a & 0xfffff000) by (bit_vector)
        requires f <= 0x0fff;
    assert(((a & 0xfffff000) | f) & 0x0fff == f) by (bit_vector)
        requires f <= 0x0fff;
    assert(((a & 0xfffff000) | f) == 0 <==> (a & 0xfffff000 == 0 && f == 0)) by (bit_vector)
        requires f <= 0x0fff;
}

/// Facts about packing an address and flags into one entry: each half is
/// read back unchanged, and the result is zero only when both halves are.
pub proof fn lemma_pack(addr: u32, flags: u16)
    ensures
        address_of(pack(addr, flags)) == addr & ADDRESS_MASK,
        flags_of(pack(addr, flags)) == (flags & 0x0fff) as u32,
        pack(addr, flags) == 0 <==> (addr & ADDRESS_MASK == 0 && flags & 0x0fff == 0),
{
    lemma_low_flags(flags);
    lemma_split(addr, (flags & 0x0fff) as u32);
}

/// The lowercase hexadecimal digit of `d`.
pub open spec fn hex_digit(d: nat) -> char {
    if d < 10 {
        ((d + 48) as u8) as char
    } else {
        ((d + 87) as u8) as char
    }
}

/// Lowercase hexadecimal digits of `n`, without leading zeros.
pub open spec fn hex_digits(n: nat) -> Seq<char>
    decreases n,
{
    if n < 16 {
        seq![hex_digit(n)]
    } else {
        hex_digits(n / 16) + seq![hex_digit(n % 16)]
    }
}

fn digit_str(d: u32) -> (r: &'static str)
    requires
        d < 16,
    ensures
        r@ == seq![hex_digit(d as nat)],
{
    proof {
        reveal_strlit("0");
        reveal_strlit("1");
        reveal_strlit("2");
        reveal_strlit("3");
        reveal_strlit("4");
        reveal_strlit("5");
        reveal_strlit("6");
        reveal_strlit("7");
        reveal_strlit("8");
        reveal_strlit("9");
        reveal_strlit("a");
        reveal_strlit("b");
        reveal_strlit("c");
        reveal_strlit("d");
        reveal_strlit("e");
        reveal_strlit("f");
    }
    let r = match d {
        0 => "0",
        1 => "1",
        2 => "2",
        3 => "3",
        4 => "4",
        5 => "5",
        6 => "6",
        7 => "7",
        8 => "8",
        9 => "9",
        10 => "a",
        11 => "b",
        12 => "c",
        13 => "d",
        14 => "e",
        _ => "f",
    };
    assert(r@ =~= seq![hex_digit(d as nat)]);
    r
}

fn push_hex(s: &mut String, n: u32)
    ensures
        final(s)@ == old(s)@ + hex_digits(n as nat),
    decreases n,
{
    if n >= 16 {
        push_hex(s, n / 16);
    }
    s.append(digit_str(n % 16));
    assert(s@ =~= old(s)@ + hex_digits(n as nat));
}

/// Readable form of an entry: its address in hexadecimal and its flags.
pub open spec fn entry_text(kind: Seq<char>, raw: u32, flags: Seq<char>) -> Seq<char> {
    kind + " {\n    address: 0x"@ + hex_digits(address_of(raw) as nat) + ",\n    flags: "@ + flags
        + "\n}"@
}

/// Entry in a page table (the leaf level). The all-zero value is the
/// hardware's "unused" sentinel; a mapped entry always has a nonzero value.
#[derive(Copy, Clone, PartialEq, Eq, Structural, Debug)]
pub struct PageTableEntry(pub u32);

impl PageTableEntry {
    /// Readable form of the entry: its address in hexadecimal and its
    /// flags.
    pub fn describe(&self) -> (r: String)
        ensures
            r@ == entry_text("PageTableEntry"@, self.0, table_flags_text(flags_of(self.0) as u16)),
    {
        let mut s = String::from_str("PageTableEntry");
        s.append(" {\n    address: 0x");
        push_hex(&mut s, self.0 & ADDRESS_MASK);
        s.append(",\n    flags: ");
        let f = PageTableFlags((self.0 & FLAGS_MASK) as u16);
        let t = f.describe();
        s.append(t.as_str());
        s.append("\n}");
        s
    }

    /// Frame address held by the entry.
    pub open spec fn address(self) -> u32 {
        address_of(self.0)
    }

    /// Flag bits held by the entry.
    pub open spec fn flags(self) -> u32 {
        flags_of(self.0)
    }

    /// Whether the entry is the unused sentinel.
    pub open spec fn unused(self) -> bool {
        self.0 == 0
    }

    /// Creates an entry for a frame address and a set of flags; the low
    /// twelve bits of the address and the high bits of the flags are dropped.
    pub fn new(addr: u32, flags: PageTableFlags) -> (r: Self)
        ensures
            r.0 == pack(addr, flags.0),
            r.address() == addr & ADDRESS_MASK,
            r.flags() == (flags.0 & 0x0fff) as u32,
    {
        proof {
            lemma_pack(addr, flags.0);
        }
        Self((addr & ADDRESS_MASK) | (flags.0 & 0x0fff) as u32)
    }

    /// Creates the unused entry.
    pub fn new_unused() -> (r: Self)
        ensures
            r.0 == 0,
            r.unused(),
    {
        Self(0)
    }

    /// Replaces the address of the entry and keeps its flags.
    pub fn set_address(&mut self, addr: u32)
        ensures
            final(self).0 == (old(self).0 & FLAGS_MASK) | (addr & ADDRESS_MASK),
            final(self).address() == addr & ADDRESS_MASK,
            final(self).flags() == old(self).flags(),
    {
        let v = self.0;
        assert((((v & 0x0fff) | (addr & 0xfffff000)) & 0xfffff000 == addr & 0xfffff000) && (((v
            & 0x0fff) | (addr & 0xfffff000)) & 0x0fff == v & 0x0fff)) by (bit_vector);
        self.0 = (self.0 & FLAGS_MASK) | (addr & ADDRESS_MASK);
    }

    /// Replaces the flags of the entry and keeps its address.
    pub fn set_flags(&mut self, flags: PageTableFlags)
        ensures
            final(self).0 == pack(old(self).0, flags.0),
            final(self).address() == old(self).address(),
            final(self).flags() == (flags.0 & 0x0fff) as u32,
    {
        proof {
            lemma_pack(self.0, flags.0);
            let v = self.0;
            assert(v & 0xfffff000 & 0xfffff000 == v & 0xfffff000) by (bit_vector);
        }
        self.0 = (self.0 & ADDRESS_MASK) | (flags.0 & 0x0fff) as u32;
    }

    /// Whether the entry is unused.
    pub fn is_unused(&self) -> (r: bool)
        ensures
            r == self.unused(),
    {
        self.0 == 0
    }

    /// Resets the entry to the unused sentinel.
    pub fn set_unused(&mut self)
        ensures
            final(self).0 == 0,
    {
        self.0 = 0;
    }

    /// The frame address held by the entry.
    pub fn get_address(&self) -> (r: u32)
        ensures
            r == self.address(),
    {
        self.0 & ADDRESS_MASK
    }

    /// The flag bits held by the entry.
    pub fn get_flags(&self) -> (r: u16)
        ensures
            r as u32 == self.flags(),
    {
        let v = self.0;
        assert(v & 0x0fff <= 0x0fff) by (bit_vector);
        (self.0 & FLAGS_MASK) as u16
    }
}

/// Entry in a page directory: the address of a page table and its flags,
/// in the same layout as a page table entry; zero means no table.
#[derive(Copy, Clone, PartialEq, Eq, Structural, Debug)]
pub struct PageDirEntry(pub u32);

impl PageDirEntry {
    /// Readable form of the entry: its address in hexadecimal and its
    /// flags.
    pub fn describe(&self) -> (r: String)
        ensures
            r@ == entry_text("PageDirEntry"@, self.0, dir_flags_text(flags_of(self.0) as u16)),
    {
        let mut s = String::from_str("PageDirEntry");
        s.append(" {\n    address: 0x");
        push_hex(&mut s, self.0 & ADDRESS_MASK);
        s.append(",\n    flags: ");
        let f = PageDirFlags((self.0 & FLAGS_MASK) as u16);
        let t = f.describe();
        s.append(t.as_str());
        s.append("\n}");
        s
    }

    /// Frame address held by the entry.
    pub open spec fn address(self) -> u32 {
        address_of(self.0)
    }

    /// Flag bits held by the entry.
    pub open spec fn flags(self) -> u32 {
        flags_of(self.0)
    }

    /// Whether the entry is the unused sentinel.
    pub open spec fn unused(self) -> bool {
        self.0 == 0
    }

    /// Creates an entry for a frame address and a set of flags; the low
    /// twelve bits of the address and the high bits of the flags are dropped.
    pub fn new(addr: u32, flags: PageTableFlags) -> (r: Self)
        ensures
            r.0 == pack(addr, flags.0),
            r.address() == addr & ADDRESS_MASK,
            r.flags() == (flags.0 & 0x0fff) as u32,
    {
        proof {
            lemma_pack(addr, flags.0);
        }
        Self((addr & ADDRESS_MASK) | (flags.0 & 0x0fff) as u32)
    }

    /// Creates the unused entry.
    pub fn new_unused() -> (r: Self)
        ensures
            r.0 == 0,
            r.unused(),
    {
        Self(0)
    }

    /// Replaces the address of the entry and keeps its flags.
    pub fn set_address(&mut self, addr: u32)
        ensures
            final(self).0 == (old(self).0 & FLAGS_MASK) | (addr & ADDRESS_MASK),
            final(self).address() == addr & ADDRESS_MASK,
            final(self).flags() == old(self).flags(),
    {
        let v = self.0;
        assert((((v & 0x0fff) | (addr & 0xfffff000)) & 0xfffff000 == addr & 0xfffff000) && (((v
            & 0x0fff) | (addr & 0xfffff000)) & 0x0fff == v & 0x0fff)) by (bit_vector);
        self.0 = (self.0 & FLAGS_MASK) | (addr & ADDRESS_MASK);
    }

    /// Replaces the flags of the entry and keeps its address.
    pub fn set_flags(&mut self, flags: PageTableFlags)
        ensures
            final(self).0 == pack(old(self).0, flags.0),
            final(self).address() == old(self).address(),
            final(self).flags() == (flags.0 & 0x0fff) as u32,
    {
        proof {
            lemma_pack(self.0, flags.0);
            let v = self.0;
            assert(v & 0xfffff000 & 0xfffff000 == v & 0xfffff000) by (bit_vector);
        }
        self.0 = (self.0 & ADDRESS_MASK) | (flags.0 & 0x0fff) as u32;
    }

    /// Whether the entry is unused.
    pub fn is_unused(&self) -> (r: bool)
        ensures
            r == self.unused(),
    {
        self.0 == 0
    }

    /// Resets the entry to the unused sentinel.
    pub fn set_unused(&mut self)
        ensures
            final(self).0 == 0,
    {
        self.0 = 0;
    }

    /// The frame address held by the entry.
    pub fn get_address(&self) -> (r: u32)
        ensures
            r == self.address(),
    {
        self.0 & ADDRESS_MASK
    }

    /// The flag bits held by the entry.
    pub fn get_flags(&self) -> (r: u16)
        ensures
            r as u32 == self.flags(),
    {
        let v = self.0;
        assert(v & 0x0fff <= 0x0fff) by (bit_vector);
        (self.0 & FLAGS_MASK) as u16
    }
}

} // verus!
