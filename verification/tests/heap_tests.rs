use vibe_boot::heap::{select_heap_region, EntryType, HeapRegion, MemoryMapEntry, SelectError};

fn entry(base: u64, length: u64, entry_type: EntryType) -> MemoryMapEntry {
    MemoryMapEntry { base, length, entry_type }
}

#[test]
fn picks_first_large_high_usable_entry() {
    let entries = vec![
        entry(0x100000, 0x1000, EntryType::Usable),
        entry(0x200000, 0x2000000, EntryType::Usable),
    ];
    let r = select_heap_region(&entries, 0x1000000, 0x200000, 0);
    assert_eq!(r, Ok(HeapRegion { base: 0x200000, size: 0x1000000 }));
}

#[test]
fn first_of_several_qualifying_wins() {
    let entries = vec![
        entry(0x300000, 0x4000000, EntryType::Usable),
        entry(0x500000, 0x4000000, EntryType::Usable),
    ];
    let r = select_heap_region(&entries, 0x1000000, 0x100000, 0);
    assert_eq!(r, Ok(HeapRegion { base: 0x300000, size: 0x1000000 }));
}

#[test]
fn applies_address_space_offset() {
    let entries = vec![entry(0x200000, 0x2000000, EntryType::Usable)];
    let r = select_heap_region(&entries, 0x1000000, 0x100000, 0xffff_8000_0000_0000);
    assert_eq!(r, Ok(HeapRegion { base: 0xffff_8000_0020_0000, size: 0x1000000 }));
}

#[test]
fn skips_non_usable_entries() {
    let entries = vec![
        entry(0x200000, 0x2000000, EntryType::Reserved),
        entry(0x400000, 0x2000000, EntryType::BootloaderReclaimable),
        entry(0x600000, 0x2000000, EntryType::Usable),
    ];
    let r = select_heap_region(&entries, 0x1000000, 0x100000, 0);
    assert_eq!(r, Ok(HeapRegion { base: 0x600000, size: 0x1000000 }));
}

#[test]
fn no_suitable_region_when_all_too_small() {
    let entries = vec![
        entry(0x200000, 0x1000, EntryType::Usable),
        entry(0x400000, 0x2000, EntryType::Usable),
    ];
    let r = select_heap_region(&entries, 0x1000000, 0x100000, 0);
    assert_eq!(r, Err(SelectError::NoSuitableRegion));
}

#[test]
fn no_suitable_region_when_all_too_low() {
    let entries = vec![entry(0x1000, 0x4000000, EntryType::Usable)];
    let r = select_heap_region(&entries, 0x1000000, 0x1000000, 0);
    assert_eq!(r, Err(SelectError::NoSuitableRegion));
}

#[test]
fn no_suitable_region_on_empty_map() {
    let entries: Vec<MemoryMapEntry> = vec![];
    let r = select_heap_region(&entries, 0x1000, 0, 0);
    assert_eq!(r, Err(SelectError::NoSuitableRegion));
}

#[test]
fn exact_length_qualifies() {
    let entries = vec![entry(0x200000, 0x1000000, EntryType::Usable)];
    let r = select_heap_region(&entries, 0x1000000, 0x200000, 0);
    assert_eq!(r, Ok(HeapRegion { base: 0x200000, size: 0x1000000 }));
}
