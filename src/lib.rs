//! Virtual-memory core of a small 32-bit x86 kernel: hardware page-table
//! encodings, a physical frame bitset, a bootstrap bump allocator and a
//! two-level page directory, together with the segment descriptor encoding
//! used during early boot and the task-free system call entry points.

pub mod entry;
pub mod bitset;
pub mod bump;
pub mod directory;
pub mod paging;
pub mod gdt;
pub mod syscalls;
