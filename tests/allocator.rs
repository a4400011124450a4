use memmap_alloc::allocator::{AllocConfig, MemoryMapAlloc};
use memmap_alloc::error::AllocError;
use memmap_alloc::memory_map::{MemoryMap, MemoryMapping, MemoryType};

fn region(mem_type: MemoryType, start: u64, len: u64) -> MemoryMapping {
    MemoryMapping { mem_type, start, len }
}

fn single_free_map() -> MemoryMap {
    MemoryMap::new(vec![region(MemoryType::Free, 0x100000, 0x100000)])
}

fn tracking() -> AllocConfig {
    AllocConfig { precision: 1, union_all: false }
}

fn engine(map: MemoryMap) -> MemoryMapAlloc {
    MemoryMapAlloc::new(map, tracking()).unwrap()
}

fn disjoint(a: u64, n: u64, b: u64, m: u64) -> bool {
    a + n <= b || b + m <= a
}

#[test]
fn single_free_region_scenario() {
    let mut a = engine(single_free_map());
    assert_eq!(a.table.header.addr, 0x100000);
    assert_eq!(a.number_of_allocations(), 1);
    let first = a.allocate(4096, 4096).unwrap();
    assert!(first >= 0x100000 && first <= 0x200000 - 4096);
    assert_eq!(first % 4096, 0);
    assert_eq!(first, 0x1FF000);
    let second = a.allocate(4096, 4096).unwrap();
    assert_ne!(first, second);
    assert_eq!(second, 0x1FE000);
    assert!(disjoint(first, 4096, second, 4096));
    assert_eq!(a.deallocate(first), Ok(()));
    assert_eq!(a.deallocate(0x12345), Err(AllocError::MemoryNotAllocated));
}

#[test]
fn table_is_tracked_memory() {
    let mut a = engine(single_free_map());
    assert!(a.check_addr(0x100000));
    assert!(a.check_addr(0x100000 + 799));
    assert!(!a.check_addr(0x100000 + 800));
    assert!(a.check_range(0x100000 + 790, 100));
    assert!(!a.check_range(0x100000 + 800, 100));
    let x = a.allocate(64, 8).unwrap();
    assert_eq!(x, 0x200000 - 64);
    assert!(a.check_addr(x));
    assert!(a.check_addr(x + 63));
    assert!(a.check_range(x - 10, 11));
    assert!(!a.check_range(x - 10, 10));
}

#[test]
fn bootstrap_fails_without_room() {
    let map = MemoryMap::new(vec![
        region(MemoryType::Free, 0x1000, 799),
        region(MemoryType::Reserved, 0x100000, 0x100000),
        region(MemoryType::HardwareSpecific(3, false), 0x300000, 0x100000),
    ]);
    assert_eq!(
        MemoryMapAlloc::new(map, tracking()).err(),
        Some(AllocError::AllocationsNotEnoughSpace)
    );
    assert_eq!(AllocError::AllocationsNotEnoughSpace.code(), -3);
}

#[test]
fn bootstrap_takes_first_qualifying_region() {
    let map = MemoryMap::new(vec![
        region(MemoryType::Free, 0x1000, 100),
        region(MemoryType::Reserved, 0x3000, 0x1000),
        region(MemoryType::HardwareSpecific(7, true), 0x5000, 800),
        region(MemoryType::Free, 0x100000, 0x100000),
    ]);
    let a = engine(map);
    assert_eq!(a.table.header.addr, 0x5000);
    assert_eq!(a.table.header.len, 768);
    assert_eq!(a.table.max_allocations_size, 800);
    assert_eq!(a.table.records.len(), 1);
    assert!(!a.table.records[0].used);
}

#[test]
fn allocation_respects_alignment() {
    let mut a = engine(single_free_map());
    let x = a.allocate(100, 64).unwrap();
    assert_eq!(x % 64, 0);
    assert_eq!(x, 0x1FF9C0);
    let y = a.allocate(100, 64).unwrap();
    assert_eq!(y % 64, 0);
    assert!(disjoint(x, 100, y, 100));
}

#[test]
fn reserved_regions_are_never_used() {
    let map = MemoryMap::new(vec![
        region(MemoryType::Free, 0x100000, 0x100000),
        region(MemoryType::Reserved, 0x400000, 0x100000),
    ]);
    let mut a = engine(map);
    for _ in 0..8 {
        let x = a.allocate(0x1000, 0x1000).unwrap();
        assert!(x >= 0x100000 && x + 0x1000 <= 0x200000);
    }
}

#[test]
fn many_allocations_are_disjoint() {
    let mut a = engine(single_free_map());
    let mut got: Vec<(u64, u64)> = Vec::new();
    for k in 1..20u64 {
        let size = 24 * k;
        let x = a.allocate(size, 8).unwrap();
        assert_eq!(x % 8, 0);
        got.push((x, size));
    }
    for i in 0..got.len() {
        for j in 0..got.len() {
            if i != j {
                assert!(disjoint(got[i].0, got[i].1, got[j].0, got[j].1));
            }
        }
        assert!(disjoint(got[i].0, got[i].1, 0x100000, 800));
    }
}

#[test]
fn release_then_allocate_reuses_safely() {
    let mut a = engine(single_free_map());
    let x = a.allocate(4096, 4096).unwrap();
    let y = a.allocate(4096, 4096).unwrap();
    let z = a.allocate(4096, 4096).unwrap();
    assert_eq!(a.deallocate(y), Ok(()));
    let w = a.allocate(4096, 4096).unwrap();
    assert_eq!(w, y);
    assert!(disjoint(w, 4096, x, 4096));
    assert!(disjoint(w, 4096, z, 4096));
    assert_eq!(a.number_of_allocations(), 3);
    assert_eq!(a.table.records[1].addr, y);
    assert!(a.table.records[1].used);
}

#[test]
fn growth_keeps_existing_records() {
    let mut a = engine(single_free_map());
    for k in 0..40u64 {
        let x = a.allocate(16, 16).unwrap();
        assert_eq!(x, 0x200000 - 16 * (k + 1));
    }
    assert_eq!(a.number_of_allocations(), 40);
    assert_eq!(a.table.header.len, 768 + 8 * 24);
    for k in 0..40usize {
        let r = a.table.records[k];
        assert!(r.used);
        assert_eq!(r.addr, 0x200000 - 16 * (k as u64 + 1));
        assert_eq!(r.len, 16);
    }
}

#[test]
fn growth_beyond_hosting_region_fails() {
    let map = MemoryMap::new(vec![
        region(MemoryType::Free, 0x1000, 800),
        region(MemoryType::Free, 0x100000, 0x100000),
    ]);
    let mut a = engine(map);
    for _ in 0..32 {
        let x = a.allocate(16, 16).unwrap();
        assert!(x >= 0x100000);
    }
    assert_eq!(a.number_of_allocations(), 32);
    assert_eq!(a.allocate(16, 16), Err(AllocError::TooManyAllocations));
    assert_eq!(a.number_of_allocations(), 32);
    assert_eq!(a.table.header.len, 768);
    assert_eq!(AllocError::TooManyAllocations.code(), -2);
}

#[test]
fn oversized_request_fails_and_changes_nothing() {
    let mut a = engine(single_free_map());
    a.allocate(4096, 4096).unwrap();
    let before = a.table.records.clone();
    assert_eq!(a.allocate(0x100001, 8), Err(AllocError::FreeMemoryUnavailable));
    assert_eq!(a.table.records, before);
    assert_eq!(a.alloc_or_zero(0x100001, 8), 0);
    assert_eq!(a.number_of_allocations(), 1);
    assert_eq!(AllocError::FreeMemoryUnavailable.code(), -1);
}

#[test]
fn allocation_stays_in_hosting_region_while_it_fits() {
    let map = MemoryMap::new(vec![
        region(MemoryType::Free, 0x1000, 0x1000),
        region(MemoryType::HardwareSpecific(2, true), 0x10000, 100),
    ]);
    let mut a = engine(map);
    assert_eq!(a.allocate(60, 64), Ok(0x1C40));
    assert_eq!(a.allocate(100, 4), Ok(0x2000 - 100));
    assert_eq!(a.allocate(0x980, 0x80), Err(AllocError::FreeMemoryUnavailable));
}

#[test]
fn coarse_search_can_miss_space() {
    let map = MemoryMap::new(vec![
        region(MemoryType::Free, 0x1000, 0x1000),
        region(MemoryType::HardwareSpecific(2, true), 0x10000, 100),
    ]);
    let mut a = engine(map);
    assert_eq!(a.allocate(0x100, 1), Ok(0x1F00));
    assert_eq!(a.allocate(0x900, 1), Err(AllocError::FreeMemoryUnavailable));
    assert_eq!(a.number_of_allocations(), 1);
}

#[test]
fn union_all_mode_tracks_nothing() {
    let config = AllocConfig { precision: 1, union_all: true };
    let mut a = MemoryMapAlloc::new(single_free_map(), config).unwrap();
    let x = a.allocate(4096, 4096).unwrap();
    let y = a.allocate(4096, 4096).unwrap();
    assert_eq!(x, 0x1FF000);
    assert_eq!(x, y);
    assert_eq!(a.number_of_allocations(), 1);
    assert_eq!(a.deallocate(0x12345), Ok(()));
    assert!(!a.check_addr(0x100000));
}

#[test]
fn default_config_tracks_overlaps() {
    let config = AllocConfig::default();
    assert!(!config.union_all);
    assert_eq!(config.precision, 1);
}

#[test]
fn finer_precision_finds_space_between_steps() {
    let mut coarse = engine(single_free_map());
    assert_eq!(coarse.allocate(16, 16), Ok(0x200000 - 16));
    assert_eq!(coarse.allocate(64, 16), Ok(0x200000 - 128));
    let fine_config = AllocConfig { precision: 4, union_all: false };
    let mut fine = MemoryMapAlloc::new(single_free_map(), fine_config).unwrap();
    assert_eq!(fine.allocate(16, 16), Ok(0x200000 - 16));
    assert_eq!(fine.allocate(64, 16), Ok(0x200000 - 80));
}

#[test]
fn bare_signal_calls() {
    let mut a = engine(single_free_map());
    let x = a.alloc_or_zero(4096, 4096);
    assert_eq!(x, 0x1FF000);
    a.dealloc(x);
    assert!(!a.table.records[0].used);
    assert_eq!(a.deallocate(x), Err(AllocError::MemoryNotAllocated));
}

#[test]
fn extend_allocation_errors() {
    let mut a = engine(single_free_map());
    let x = a.allocate(4096, 4096).unwrap();
    let y = a.allocate(4096, 4096).unwrap();
    assert_eq!((x, y), (0x1FF000, 0x1FE000));
    assert_eq!(a.table.extend_allocation(5, 16), Err(AllocError::ExtendAllocationInvalidIndex));
    assert_eq!(a.table.extend_allocation(2, 16), Err(AllocError::ExtendAllocationInvalidIndex));
    assert_eq!(a.table.extend_allocation(1, 16), Err(AllocError::ExtendAllocationOtherAllocation));
    assert_eq!(a.table.records[1].len, 4096);
    assert_eq!(a.table.extend_allocation(0, 4096), Ok(()));
    assert_eq!(a.table.records[0].len, 8192);
    assert_eq!(a.table.extend_allocation(0, u64::MAX), Err(AllocError::ExtendAllocationOtherAllocation));
    assert_eq!(a.deallocate(x), Ok(()));
    assert_eq!(a.table.extend_allocation(0, 16), Err(AllocError::ExtendAllocationAllocationUnused));
    assert_eq!(AllocError::ExtendAllocationInvalidIndex.code(), -4);
    assert_eq!(AllocError::ExtendAllocationAllocationUnused.code(), -5);
    assert_eq!(AllocError::ExtendAllocationOtherAllocation.code(), -6);
    assert_eq!(AllocError::MemoryNotAllocated.code(), -7);
}

#[test]
fn extend_header_checks_neighbour() {
    let map = MemoryMap::new(vec![region(MemoryType::Free, 0x1000, 0x1000)]);
    let mut a = engine(map);
    assert_eq!(a.table.extend_allocation_header(24), Ok(()));
    assert_eq!(a.table.header.len, 792);
    let x = a.allocate(0x1000 - 32 - 792, 1).unwrap();
    assert_eq!(x, 0x1000 + 32 + 792);
    assert_eq!(a.table.extend_allocation_header(24), Err(AllocError::ExtendAllocationOtherAllocation));
    assert_eq!(a.table.header.len, 792);
}

#[test]
fn memory_map_well_formedness() {
    assert!(single_free_map().is_well_formed());
    let bad = MemoryMap::new(vec![region(MemoryType::Free, u64::MAX - 10, 11)]);
    assert!(!bad.is_well_formed());
    assert!(region(MemoryType::HardwareSpecific(1, true), 0, 1).allocatable());
    assert!(!region(MemoryType::Reserved, 0, 1).allocatable());
}

#[test]
fn allocation_moves_to_next_region_when_host_is_full() {
    let map = MemoryMap::new(vec![
        region(MemoryType::Free, 0x1000, 800),
        region(MemoryType::Reserved, 0x8000, 0x1000),
        region(MemoryType::HardwareSpecific(2, true), 0x10000, 100),
    ]);
    let mut a = engine(map);
    assert_eq!(a.allocate(100, 4), Ok(0x10000));
    assert_eq!(a.allocate(1, 1), Err(AllocError::FreeMemoryUnavailable));
}

#[test]
fn zero_sized_and_largest_requests() {
    let mut a = engine(single_free_map());
    assert_eq!(a.allocate(0, 1), Ok(0x200000));
    assert!(a.table.records[0].used);
    assert_eq!(a.table.records[0].len, 0);
    assert_eq!(a.allocate(0x100000, 1), Err(AllocError::FreeMemoryUnavailable));
    assert_eq!(a.allocate(u64::MAX, 1), Err(AllocError::FreeMemoryUnavailable));
    assert_eq!(a.allocate(0x100000 - 800, 1), Ok(0x100000 + 800));
    assert_eq!(a.allocate(1, 1), Err(AllocError::FreeMemoryUnavailable));
}

#[test]
fn zero_precision_searches_like_the_coarsest() {
    let config = AllocConfig { precision: 0, union_all: false };
    let mut a = MemoryMapAlloc::new(single_free_map(), config).unwrap();
    assert_eq!(a.allocate(16, 16), Ok(0x200000 - 16));
    assert_eq!(a.allocate(64, 16), Ok(0x200000 - 128));
}

#[test]
fn address_zero_is_never_handed_out() {
    let map = MemoryMap::new(vec![
        region(MemoryType::Free, 0, 0x100),
        region(MemoryType::Free, 0x100000, 0x100000),
    ]);
    let mut a = engine(map);
    assert_eq!(a.table.header.addr, 0x100000);
    assert_eq!(a.allocate(0x100, 1), Ok(0x200000 - 0x100));
    assert_eq!(a.alloc_or_zero(0x100, 1), 0x200000 - 0x200);
    let zero_only = MemoryMap::new(vec![
        region(MemoryType::Free, 0, 0x100),
        region(MemoryType::Free, 0x1000, 800),
    ]);
    let mut b = engine(zero_only);
    assert_eq!(b.allocate(0x100, 1), Err(AllocError::FreeMemoryUnavailable));
    assert_eq!(b.alloc_or_zero(0x100, 1), 0);
    assert_eq!(b.allocate(0x80, 1), Ok(0x80));
}

fn filled_table() -> MemoryMapAlloc {
    let map = MemoryMap::new(vec![
        region(MemoryType::Free, 0x1000, 0x1000),
        region(MemoryType::Free, 0x10000, 0x1000),
    ]);
    let config = AllocConfig { precision: 0xCC0, union_all: false };
    let mut a = MemoryMapAlloc::new(map, config).unwrap();
    for k in 0..32u64 {
        assert_eq!(a.allocate(1, 1), Ok(0x1FFF - k));
    }
    assert_eq!(a.number_of_allocations(), 32);
    assert_eq!(a.table.header.len, 768);
    a
}

#[test]
fn candidate_in_growth_bytes_is_skipped() {
    let mut a = filled_table();
    assert_eq!(a.allocate(0xCC0, 1), Ok(0x11000 - 0xCC0));
    assert_eq!(a.number_of_allocations(), 33);
    assert_eq!(a.table.header.len, 792);
    for k in 0..32usize {
        assert_eq!(a.table.records[k].addr, 0x1FFF - k as u64);
        assert_eq!(a.table.records[k].len, 1);
    }
}

#[test]
fn candidate_above_growth_bytes_is_taken() {
    let mut a = filled_table();
    assert_eq!(a.allocate(0xCA8, 1), Ok(0x1338));
    assert_eq!(a.number_of_allocations(), 33);
    assert_eq!(a.table.header.len, 792);
    assert_eq!(a.table.extend_allocation_header(24), Err(AllocError::ExtendAllocationOtherAllocation));
}
