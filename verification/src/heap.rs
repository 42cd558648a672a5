//! Selection of a physical-memory region for the boot-time heap.
//!
//! The bootloader hands the kernel an ordered sequence of memory-map entries.
//! The selector walks that sequence and picks the first entry that is usable,
//! long enough for the requested heap, and high enough to stay clear of
//! kernel- and bootloader-reserved low memory.  The chosen base is translated
//! into the kernel's address space by a fixed additive offset before it is
//! returned.
use vstd::prelude::*;

verus! {

/// Classification of a memory-map entry, as reported by the boot environment.
#[derive(Clone, Copy, Debug, PartialEq, Eq, Structural)]
pub enum EntryType {
    /// Free for general allocation.
    Usable,
    /// Firmware- or hardware-owned; never touched.
    Reserved,
    /// Holds ACPI tables that may be reclaimed later.
    AcpiReclaimable,
    /// Bootloader structures; reclaimable once boot data has been consumed.
    BootloaderReclaimable,
    /// The kernel image and modules themselves.
    KernelAndModules,
    /// The linear framebuffer.
    Framebuffer,
    /// Anything else (non-volatile ACPI memory, bad memory, ...).
    Other,
}

/// One entry of the bootloader-provided physical memory map.
#[derive(Clone, Copy, Debug, PartialEq, Eq, Structural)]
pub struct MemoryMapEntry {
    /// Base physical address of the region.
    pub base: u64,
    /// Length of the region in bytes.
    pub length: u64,
    /// Classification of the region.
    pub entry_type: EntryType,
}

/// The region chosen for the heap: a base address already translated into the
/// kernel's address space, and the size the allocator will be given.
#[derive(Clone, Copy, Debug, PartialEq, Eq, Structural)]
pub struct HeapRegion {
    /// Translated base address of the heap.
    pub base: u64,
    /// Size of the heap in bytes.
    pub size: u64,
}

/// Failure of the heap-region search; fatal to boot.
#[derive(Clone, Copy, Debug, PartialEq, Eq, Structural)]
pub enum SelectError {
    /// No memory-map entry is usable, long enough and high enough.
    NoSuitableRegion,
}

/// Whether one memory-map entry can host a heap of `requested` bytes whose
/// physical base is at least `min_base`.
pub open spec fn suitable(e: MemoryMapEntry, requested: u64, min_base: u64) -> bool {
    &&& e.entry_type == EntryType::Usable
    &&& e.length >= requested
    &&& e.base >= min_base
}

/// Pick the first suitable entry of `entries`, in iteration order, and return
/// its base translated by `hhdm_offset`, paired with the requested size.
///
/// The result is deterministic: the first qualifying entry wins.  When no
/// entry qualifies the search fails with `NoSuitableRegion`.
pub fn select_heap_region(
    entries: &Vec<MemoryMapEntry>,
    requested: u64,
    min_base: u64,
    hhdm_offset: u64,
) -> (r: Result<HeapRegion, SelectError>)
    requires
        forall|i: int|
            0 <= i < entries@.len() && suitable(entries@[i], requested, min_base)
                ==> entries@[i].base + hhdm_offset <= u64::MAX,
    ensures
        match r {
            Ok(region) => exists|i: int|
                {
                    &&& 0 <= i < entries@.len()
                    &&& suitable(entries@[i], requested, min_base)
                    &&& (forall|j: int|
                        0 <= j < i ==> !suitable(entries@[j], requested, min_base))
                    &&& region.base == entries@[i].base + hhdm_offset
                    &&& region.size == requested
                },
            Err(e) => {
                &&& e == SelectError::NoSuitableRegion
                &&& forall|i: int|
                    0 <= i < entries@.len() ==> !suitable(entries@[i], requested, min_base)
            },
        },
{
    let n = entries.len();
    let mut i: usize = 0;
    while i < n
        invariant
            n == entries@.len(),
            0 <= i <= n,
            forall|j: int| 0 <= j < i ==> !suitable(entries@[j], requested, min_base),
            forall|k: int|
                0 <= k < entries@.len() && suitable(entries@[k], requested, min_base)
                    ==> entries@[k].base + hhdm_offset <= u64::MAX,
        decreases n - i,
    {
        let e = entries[i];
        if e.entry_type == EntryType::Usable && e.length >= requested && e.base >= min_base {
            return Ok(HeapRegion { base: e.base + hhdm_offset, size: requested });
        }
        i += 1;
    }
    Err(SelectError::NoSuitableRegion)
}

} // verus!
