//! The ways an allocator operation can fail.
use vstd::prelude::*;

verus! {

/// Free memory of the requested size and alignment could not be found.
pub const FREE_MEMORY_UNAVAILABLE: i16 = -1;

/// Growing the allocation table would leave its hosting region.
pub const TOO_MANY_ALLOCATIONS: i16 = -2;

/// No allocatable region has room for the header and 32 records.
pub const ALLOCATIONS_NOT_ENOUGH_SPACE: i16 = -3;

/// An extension named a record that does not exist.
pub const EXTEND_ALLOCATION_INVALID_INDEX: i16 = -4;

/// An extension named a retired record.
pub const EXTEND_ALLOCATION_ALLOCATION_UNUSED: i16 = -5;

/// An extension would run into tracked memory.
pub const EXTEND_ALLOCATION_OTHER_ALLOCATION: i16 = -6;

/// A release named an address that no live allocation starts at.
pub const MEMORY_NOT_ALLOCATED: i16 = -7;

/// A request came before the allocator was initialized.
pub const MAYBE_MEMORY_MAP_ALLOC_UNINITALIZED: i16 = -8;

/// Why an allocator operation failed.
#[derive(Clone, Copy, Debug, PartialEq, Eq, Structural)]
pub enum AllocError {
    /// No address satisfies the size, alignment and overlap constraints.
    FreeMemoryUnavailable,
    /// Growing the table would leave its hosting region.
    TooManyAllocations,
    /// No region can host the minimum table.
    AllocationsNotEnoughSpace,
    /// The record index does not name an existing record.
    ExtendAllocationInvalidIndex,
    /// The record to extend is retired.
    ExtendAllocationAllocationUnused,
    /// The extension would overlap tracked memory.
    ExtendAllocationOtherAllocation,
    /// No live allocation starts at the given address.
    MemoryNotAllocated,
    /// The allocator has not been initialized.
    MaybeMemoryMapAllocUninitalized,
}

impl AllocError {
    /// The numeric status code of this error.
    pub open spec fn code_spec(self) -> i16 {
        match self {
            AllocError::FreeMemoryUnavailable => FREE_MEMORY_UNAVAILABLE,
            AllocError::TooManyAllocations => TOO_MANY_ALLOCATIONS,
            AllocError::AllocationsNotEnoughSpace => ALLOCATIONS_NOT_ENOUGH_SPACE,
            AllocError::ExtendAllocationInvalidIndex => EXTEND_ALLOCATION_INVALID_INDEX,
            AllocError::ExtendAllocationAllocationUnused => EXTEND_ALLOCATION_ALLOCATION_UNUSED,
            AllocError::ExtendAllocationOtherAllocation => EXTEND_ALLOCATION_OTHER_ALLOCATION,
            AllocError::MemoryNotAllocated => MEMORY_NOT_ALLOCATED,
            AllocError::MaybeMemoryMapAllocUninitalized => MAYBE_MEMORY_MAP_ALLOC_UNINITALIZED,
        }
    }

    /// The numeric status code of this error.
    pub fn code(&self) -> (r: i16)
        ensures
            r == self.code_spec(),
    {
        match self {
            AllocError::FreeMemoryUnavailable => FREE_MEMORY_UNAVAILABLE,
            AllocError::TooManyAllocations => TOO_MANY_ALLOCATIONS,
            AllocError::AllocationsNotEnoughSpace => ALLOCATIONS_NOT_ENOUGH_SPACE,
            AllocError::ExtendAllocationInvalidIndex => EXTEND_ALLOCATION_INVALID_INDEX,
            AllocError::ExtendAllocationAllocationUnused => EXTEND_ALLOCATION_ALLOCATION_UNUSED,
            AllocError::ExtendAllocationOtherAllocation => EXTEND_ALLOCATION_OTHER_ALLOCATION,
            AllocError::MemoryNotAllocated => MEMORY_NOT_ALLOCATED,
            AllocError::MaybeMemoryMapAllocUninitalized => MAYBE_MEMORY_MAP_ALLOC_UNINITALIZED,
        }
    }
}

} // verus!
