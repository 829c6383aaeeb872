use aero_kernel::gdt::{
    GdtAccessFlags, GdtDescriptor, GdtEntry, GdtEntryFlags, SegmentSelector, TssEntry,
};

#[test]
fn segment_selector_packs_index_and_rpl() {
    assert_eq!(SegmentSelector::new(1, SegmentSelector::RPL_0).bits, 0b1000);
    assert_eq!(SegmentSelector::new(2, SegmentSelector::RPL_0).bits, 0b10000);
    assert_eq!(SegmentSelector::new(2, SegmentSelector::RPL_3).bits, 0b10011);
    assert_eq!(SegmentSelector::new(0, SegmentSelector::TI_LDT).bits, 0b100);
}

#[test]
fn gdt_entry_keeps_access_byte_and_high_flag_bits() {
    let access = GdtAccessFlags::PRESENT
        | GdtAccessFlags::RING_0
        | GdtAccessFlags::SYSTEM
        | GdtAccessFlags::EXECUTABLE
        | GdtAccessFlags::PRIVILEGE;
    let entry = GdtEntry::new(access, GdtEntryFlags::from_bits(GdtEntryFlags::LONG_MODE));
    assert_eq!(entry.access_byte, 0b1001_1010);
    assert_eq!(entry.limit_hi_flags, 0b0010_0000);
    assert_eq!(entry.limit_low, 0);
    assert_eq!(entry.base_low, 0);
    assert_eq!(entry.base_middle, 0);
    assert_eq!(entry.base_hi, 0);
}

#[test]
fn gdt_entry_null_is_all_zero() {
    let entry = GdtEntry::null();
    assert_eq!(entry.access_byte, 0);
    assert_eq!(entry.limit_hi_flags, 0);
    assert_eq!(entry.limit_low, 0);
    assert_eq!(entry.base_low, 0);
    assert_eq!(entry.base_middle, 0);
    assert_eq!(entry.base_hi, 0);
}

#[test]
fn gdt_descriptor_holds_size_and_offset() {
    let d = GdtDescriptor::new(4 * 8 - 1, 0xFFFF_8000_0010_0000);
    assert_eq!(d.size, 31);
    assert_eq!(d.offset, 0xFFFF_8000_0010_0000);
}

#[test]
fn tss_entry_starts_cleared_with_iomap_disabled() {
    let tss = TssEntry::new();
    assert_eq!(tss.iomap_base, 0xFFFF);
    assert_eq!(tss.rsp, [0; 3]);
    assert_eq!(tss.ist, [0; 7]);
    assert_eq!(tss.reserved, 0);
}
