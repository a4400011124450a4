//! The memory map handed over by the boot collaborator.
use vstd::prelude::*;

verus! {

/// The classification of a memory region.
#[derive(Clone, Copy, Debug, PartialEq, Eq, Structural)]
pub enum MemoryType {
    /// Memory free for use.
    Free,
    /// Memory that must not be touched.
    Reserved,
    /// Memory with a firmware-specific tag, and whether it may be allocated.
    HardwareSpecific(u32, bool),
}

/// One region of physical memory.
#[derive(Clone, Copy, Debug, PartialEq, Eq, Structural)]
pub struct MemoryMapping {
    /// The kind of memory in the region.
    pub mem_type: MemoryType,
    /// The first address of the region.
    pub start: u64,
    /// The length of the region in bytes.
    pub len: u64,
}

impl MemoryMapping {
    /// Whether the allocator may place data in this region.
    pub open spec fn allocatable_spec(self) -> bool {
        match self.mem_type {
            MemoryType::Free => true,
            MemoryType::Reserved => false,
            MemoryType::HardwareSpecific(_, a) => a,
        }
    }

    /// The region ends inside the 64-bit address space.
    pub open spec fn wf(self) -> bool {
        self.start + self.len <= u64::MAX
    }

    /// Whether the allocator may place data in this region.
    pub fn allocatable(&self) -> (r: bool)
        ensures
            r == self.allocatable_spec(),
    {
        match self.mem_type {
            MemoryType::Free => true,
            MemoryType::Reserved => false,
            MemoryType::HardwareSpecific(_, a) => a,
        }
    }
}

/// An ordered sequence of memory regions. Every pass over it starts again
/// from the first region.
#[derive(Clone, Debug)]
pub struct MemoryMap {
    /// The regions, in the order the firmware reported them.
    pub mappings: Vec<MemoryMapping>,
}

impl View for MemoryMap {
    type V = Seq<MemoryMapping>;

    open spec fn view(&self) -> Seq<MemoryMapping> {
        self.mappings@
    }
}

impl MemoryMap {
    /// Every region lies inside the 64-bit address space.
    pub open spec fn wf(&self) -> bool {
        forall|i: int| 0 <= i < self@.len() ==> (#[trigger] self@[i]).wf()
    }

    /// Wraps a list of regions.
    pub fn new(mappings: Vec<MemoryMapping>) -> (r: MemoryMap)
        ensures
            r@ == mappings@,
    {
        MemoryMap { mappings }
    }

    /// Whether every region lies inside the 64-bit address space.
    pub fn is_well_formed(&self) -> (r: bool)
        ensures
            r == self.wf(),
    {
        let mut i: usize = 0;
        while i < self.mappings.len()
            invariant
                i <= self@.len(),
                forall|j: int| 0 <= j < i ==> (#[trigger] self@[j]).wf(),
            decreases self@.len() - i,
        {
            let m = self.mappings[i];
            if m.len > u64::MAX - m.start {
                return false;
            }
            i = i + 1;
        }
        true
    }
}

} // verus!
