//! Entries of the Global Descriptor Table and the Task State Segment.
//!
//! These are plain data constructors: the boot code assembles the tables
//! from them and hands the result to the processor.

use vstd::prelude::*;

verus! {

/// Flag bits of a segment selector: an index into a descriptor table
/// together with a requested privilege level and a table indicator.
#[derive(Debug, Clone, Copy, PartialEq, Eq, Structural)]
pub struct SegmentSelector {
    pub bits: u16,
}

impl SegmentSelector {
    /// Requested privilege level 0 (kernel).
    pub const RPL_0: u16 = 0b00;

    /// Requested privilege level 1.
    pub const RPL_1: u16 = 0b01;

    /// Requested privilege level 2.
    pub const RPL_2: u16 = 0b10;

    /// Requested privilege level 3 (user).
    pub const RPL_3: u16 = 0b11;

    /// Table indicator bit clear: the selector refers to the GDT.
    pub const TI_GDT: u16 = 0 << 2;

    /// Table indicator bit set: the selector refers to the LDT.
    pub const TI_LDT: u16 = 1 << 2;

    /// Builds the selector for the descriptor at `index` with the
    /// requested privilege level bits `rpl`.
    pub fn new(index: u16, rpl: u16) -> (r: Self)
        ensures
            r.bits == (index << 3) | rpl,
    {
        SegmentSelector { bits: (index << 3) | rpl }
    }
}

/// Access-byte flags of a descriptor-table entry.
pub struct GdtAccessFlags;

impl GdtAccessFlags {
    pub const NULL: u8 = 0;

    pub const PRESENT: u8 = 1 << 7;

    pub const RING_0: u8 = 0 << 5;

    pub const RING_3: u8 = 3 << 5;

    pub const SYSTEM: u8 = 1 << 4;

    pub const EXECUTABLE: u8 = 1 << 3;

    pub const PRIVILEGE: u8 = 1 << 1;

    pub const TSS_AVAIL: u8 = 9;
}

/// Granularity and mode flags of a descriptor-table entry; the four high
/// bits are the ones that enter the entry.
#[derive(Debug, Clone, Copy, PartialEq, Eq, Structural)]
pub struct GdtEntryFlags {
    pub bits: u8,
}

impl GdtEntryFlags {
    pub const NULL: u8 = 0;

    pub const PROTECTED_MODE: u8 = 1 << 6;

    pub const LONG_MODE: u8 = 1 << 5;

    /// Wraps raw flag bits.
    pub fn from_bits(bits: u8) -> (r: Self)
        ensures
            r.bits == bits,
    {
        GdtEntryFlags { bits }
    }
}

/// The value loaded by the `lgdt` instruction: the table's size in bytes
/// minus one, and its linear address.
#[derive(Debug, Clone, Copy, PartialEq, Eq, Structural)]
pub struct GdtDescriptor {
    /// The size of the table subtracted by 1, as the maximum value
    /// of `size` is 65535 while the table can be up to 65536 bytes.
    pub size: u16,
    /// The linear address of the table.
    pub offset: u64,
}

impl GdtDescriptor {
    /// Creates a new GDT descriptor.
    pub fn new(size: u16, offset: u64) -> (r: Self)
        ensures
            r.size == size,
            r.offset == offset,
    {
        GdtDescriptor { size, offset }
    }
}

/// One entry of the Global Descriptor Table, telling the processor about
/// a memory segment.
#[derive(Debug, Clone, Copy, PartialEq, Eq, Structural)]
pub struct GdtEntry {
    pub limit_low: u16,
    pub base_low: u16,
    pub base_middle: u8,
    pub access_byte: u8,
    /// The limit high and the flags: four bits of the value are the limit
    /// and the other four bits are the flags.
    pub limit_hi_flags: u8,
    pub base_hi: u8,
}

impl GdtEntry {
    /// Builds an entry with a zero base and limit from an access byte and
    /// entry flags; only the four high flag bits are kept.
    pub fn new(access_flags: u8, entry_flags: GdtEntryFlags) -> (r: Self)
        ensures
            r.limit_low == 0,
            r.base_low == 0,
            r.base_middle == 0,
            r.access_byte == access_flags,
            r.limit_hi_flags == entry_flags.bits & 0xF0,
            r.base_hi == 0,
    {
        GdtEntry {
            limit_low: 0x00,
            base_low: 0x00,
            base_middle: 0x00,
            access_byte: access_flags,
            limit_hi_flags: entry_flags.bits & 0xF0,
            base_hi: 0x00,
        }
    }

    /// The all-zero null descriptor that opens every descriptor table.
    pub fn null() -> (r: Self)
        ensures
            r.limit_low == 0,
            r.base_low == 0,
            r.base_middle == 0,
            r.access_byte == 0,
            r.limit_hi_flags == 0,
            r.base_hi == 0,
    {
        proof {
            assert(0u8 & 0xF0 == 0) by (bit_vector);
        }
        GdtEntry::new(GdtAccessFlags::NULL, GdtEntryFlags { bits: GdtEntryFlags::NULL })
    }
}

/// The Task State Segment: a processor structure holding the stack
/// pointers and interrupt-stack-table slots of a task.
#[derive(Debug, Clone, Copy)]
pub struct TssEntry {
    pub reserved: u32,
    pub rsp: [u64; 3],
    pub reserved2: u64,
    pub ist: [u64; 7],
    pub reserved3: u64,
    pub reserved4: u16,
    pub iomap_base: u16,
}

impl TssEntry {
    /// A fresh TSS with cleared stack pointers and the I/O map base set
    /// past the segment limit, disabling the I/O permission bitmap.
    pub fn new() -> (r: Self)
        ensures
            r.reserved == 0,
            forall|i: int| 0 <= i < 3 ==> r.rsp[i] == 0,
            r.reserved2 == 0,
            forall|i: int| 0 <= i < 7 ==> r.ist[i] == 0,
            r.reserved3 == 0,
            r.reserved4 == 0,
            r.iomap_base == 0xFFFF,
    {
        TssEntry {
            reserved: 0,
            rsp: [0; 3],
            reserved2: 0,
            ist: [0; 7],
            reserved3: 0,
            reserved4: 0,
            iomap_base: 0xFFFF,
        }
    }
}

} // verus!
