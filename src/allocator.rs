//! The allocator engine: bootstraps the allocation table from a memory map and
//! answers allocation and release requests.
use vstd::prelude::*;
use crate::error::AllocError;
use crate::memory_map::{MemoryMap, MemoryMapping};
use crate::table::{
    after, status, Allocation, AllocationTable, TableModel, HEADER_SIZE, INITIAL_CAPACITY,
};

verus! {

/// The precision divisor used unless configured otherwise: the coarsest search.
pub const DEFAULT_ALLOC_PRECISION: u64 = 1;

/// Tuning of the allocator.
#[derive(Clone, Copy, Debug, PartialEq, Eq, Structural)]
pub struct AllocConfig {
    /// The search steps down by `size / precision` bytes per probe; a larger
    /// divisor searches more finely and more slowly.
    pub precision: u64,
    /// Turns off overlap tracking and bookkeeping entirely: nothing is
    /// recorded and the same address may be handed out twice.
    pub union_all: bool,
}

impl Default for AllocConfig {
    fn default() -> (r: AllocConfig)
        ensures
            r.precision == DEFAULT_ALLOC_PRECISION,
            !r.union_all,
    {
        AllocConfig { precision: DEFAULT_ALLOC_PRECISION, union_all: false }
    }
}

/// The distance between two probes of the search: `size / precision`, and at
/// least one byte so that the search always moves. A divisor of zero counts
/// as one, the coarsest search.
pub open spec fn step_spec(size: int, precision: int) -> int {
    let p = if precision <= 0 { 1 } else { precision };
    if size / p <= 0 {
        1
    } else {
        size / p
    }
}

fn step(size: u64, precision: u64) -> (r: u64)
    ensures
        r == step_spec(size as int, precision as int),
        r >= 1,
{
    let p: u64 = if precision == 0 { 1 } else { precision };
    let s = size / p;
    if s == 0 {
        1
    } else {
        s
    }
}

/// A region that may host the allocation table: allocatable, and with room
/// for the header and the minimum number of records.
pub open spec fn can_host(m: MemoryMapping) -> bool {
    m.allocatable_spec() && m.len >= HEADER_SIZE + INITIAL_CAPACITY
}

/// Region `i` is the first in map order that may host the table.
pub open spec fn first_host(map: Seq<MemoryMapping>, i: int) -> bool {
    &&& 0 <= i < map.len()
    &&& can_host(map[i])
    &&& forall|j: int| 0 <= j < i ==> !can_host(#[trigger] map[j])
}

/// A physical memory allocator that draws on a memory map.
#[derive(Debug)]
pub struct MemoryMapAlloc {
    /// The memory map to allocate from.
    pub memory_map: MemoryMap,
    /// The allocation table, hosted inside one of the map's regions.
    pub table: AllocationTable,
    /// The allocator's tuning.
    pub config: AllocConfig,
}

impl MemoryMapAlloc {
    /// Some region of `map` may host the allocation table.
    pub open spec fn can_start(map: Seq<MemoryMapping>) -> bool {
        exists|i: int| first_host(map, i)
    }

    /// `a` is the allocator set up on `memory_map` with `config`: its table
    /// sits at the start of the first region that may host it.
    pub open spec fn new_ok(memory_map: MemoryMap, config: AllocConfig, a: MemoryMapAlloc) -> bool {
        &&& a.wf()
        &&& a.memory_map@ == memory_map@
        &&& a.config == config
        &&& exists|i: int|
            first_host(memory_map@, i) && a.table@ == AllocationTable::initial(
                memory_map@[i].start as int,
                memory_map@[i].len as int,
            )
    }

    /// The allocator's invariant.
    pub open spec fn wf(&self) -> bool {
        self.memory_map.wf() && self.table.wf()
    }

    /// Whether `[addr, addr + size)` may be handed out with alignment `align`.
    /// Address zero is never handed out: it is the null address, which the
    /// bare-signal entry points use to report failure.
    /// With tracking on, the range must also stay out of the bytes the table
    /// grows into when registering it needs growth.
    pub open spec fn fits(&self, addr: int, size: int, align: int) -> bool {
        addr != 0 && addr % align == 0 && (self.config.union_all || (self.table@.range_free(addr, size)
            && self.table@.clear_of_growth(addr, size)))
    }

    /// The top-down probe of one region: from `addr` downwards by `step`,
    /// never below `lo`, the first candidate that fits.
    ///
    /// The probe only visits addresses a whole number of steps below its
    /// start and never turns back upwards, so free space between two probes,
    /// or below the last one, may go unseen. This is deliberate: a finer
    /// precision divisor is the way to search more thoroughly.
    pub open spec fn scan_down(&self, lo: int, addr: int, size: int, align: int, step: int) -> Option<int>
        decreases addr - lo,
    {
        if addr < lo || step <= 0 {
            None
        } else if self.fits(addr, size, align) {
            Some(addr)
        } else if addr - step < lo {
            None
        } else {
            self.scan_down(lo, addr - step, size, align, step)
        }
    }

    /// What region `i` yields: a probe from its top, if it is allocatable and
    /// long enough.
    pub open spec fn region_candidate(&self, i: int, size: int, align: int) -> Option<int> {
        let m = self.memory_map@[i];
        if m.len >= size && m.allocatable_spec() {
            self.scan_down(
                m.start as int,
                m.start + m.len - size,
                size,
                align,
                step_spec(size, self.config.precision as int),
            )
        } else {
            None
        }
    }

    /// The first candidate that regions `i..` yield, in map order.
    pub open spec fn search_from(&self, i: int, size: int, align: int) -> Option<int>
        decreases self.memory_map@.len() - i,
    {
        if i < 0 || i >= self.memory_map@.len() {
            None
        } else {
            match self.region_candidate(i, size, align) {
                Some(a) => Some(a),
                None => self.search_from(i + 1, size, align),
            }
        }
    }

    /// The address an allocation of `size` bytes aligned to `align` gets.
    pub open spec fn search(&self, size: int, align: int) -> Option<int> {
        self.search_from(0, size, align)
    }

    /// The table and result after allocating `size` bytes aligned to `align`.
    pub open spec fn allocate_outcome(&self, size: u64, align: u64) -> (TableModel, Result<u64, AllocError>) {
        match self.search(size as int, align as int) {
            None => (self.table@, Err(AllocError::FreeMemoryUnavailable)),
            Some(a) => if self.config.union_all {
                (self.table@, Ok(a as u64))
            } else {
                match self.table@.added(Allocation { used: true, addr: a as u64, len: size }) {
                    Ok(t) => (t, Ok(a as u64)),
                    Err(e) => (self.table@, Err(e)),
                }
            },
        }
    }

    /// The table and result after releasing the allocation at `addr`.
    pub open spec fn deallocate_outcome(&self, addr: u64) -> (TableModel, Result<(), AllocError>) {
        if self.config.union_all {
            (self.table@, Ok(()))
        } else {
            (after(self.table@, self.table@.released(addr as int)), status(self.table@.released(addr as int)))
        }
    }

    /// `other` has the same memory map and configuration.
    pub open spec fn same_setup(&self, other: &MemoryMapAlloc) -> bool {
        self.memory_map@ == other.memory_map@ && self.config == other.config
    }

    /// A probe result fits and lies between `lo` and the first probe.
    pub proof fn lemma_scan_down_fits(&self, lo: int, addr: int, size: int, align: int, step: int)
        ensures
            match self.scan_down(lo, addr, size, align, step) {
                Some(a) => self.fits(a, size, align) && lo <= a <= addr,
                None => true,
            },
        decreases addr - lo,
    {
        if addr >= lo && step > 0 && !self.fits(addr, size, align) && addr - step >= lo {
            self.lemma_scan_down_fits(lo, addr - step, size, align, step);
        }
    }

    /// A search result fits and lies inside an allocatable region of the map.
    pub proof fn lemma_search_from_fits(&self, i: int, size: int, align: int)
        ensures
            match self.search_from(i, size, align) {
                Some(a) => self.fits(a, size, align) && exists|j: int|
                    #![trigger self.memory_map@[j]]
                    0 <= j < self.memory_map@.len() && self.memory_map@[j].allocatable_spec()
                        && self.memory_map@[j].start <= a && a + size <= self.memory_map@[j].start
                        + self.memory_map@[j].len,
                None => true,
            },
        decreases self.memory_map@.len() - i,
    {
        if 0 <= i < self.memory_map@.len() {
            let m = self.memory_map@[i];
            if m.len >= size && m.allocatable_spec() {
                self.lemma_scan_down_fits(
                    m.start as int,
                    m.start + m.len - size,
                    size,
                    align,
                    step_spec(size, self.config.precision as int),
                );
            }
            self.lemma_search_from_fits(i + 1, size, align);
        }
    }

    /// Sets up an allocator on `memory_map`, placing the allocation table at
    /// the start of the first region that may host it.
    pub fn new(memory_map: MemoryMap, config: AllocConfig) -> (r: Result<MemoryMapAlloc, AllocError>)
        requires
            memory_map.wf(),
        ensures
            match r {
                Ok(a) => Self::can_start(memory_map@) && Self::new_ok(memory_map, config, a),
                Err(e) => e == AllocError::AllocationsNotEnoughSpace && !Self::can_start(memory_map@),
            },
    {
        let mut i: usize = 0;
        while i < memory_map.mappings.len()
            invariant
                memory_map.wf(),
                i <= memory_map@.len(),
                forall|j: int| 0 <= j < i ==> !can_host(#[trigger] memory_map@[j]),
            decreases memory_map@.len() - i,
        {
            let m = memory_map.mappings[i];
            if m.allocatable() && m.len >= HEADER_SIZE + INITIAL_CAPACITY {
                assert(first_host(memory_map@, i as int));
                assert(memory_map@[i as int].wf());
                let table = AllocationTable::new(m.start, m.len);
                return Ok(MemoryMapAlloc { memory_map, table, config });
            }
            i = i + 1;
        }
        proof {
            assert forall|k: int| !first_host(memory_map@, k) by {
                if 0 <= k < memory_map@.len() {
                    assert(!can_host(memory_map@[k]));
                }
            }
        }
        Err(AllocError::AllocationsNotEnoughSpace)
    }

    /// Returns the number of populated records in the allocation table.
    pub fn number_of_allocations(&self) -> (r: u64)
        requires
            self.wf(),
        ensures
            r == self.table@.records.len(),
    {
        self.table.number_of_allocations()
    }

    /// Whether a tracked range holds `addr`; never, when tracking is off.
    pub fn check_addr(&self, addr: u64) -> (r: bool)
        requires
            self.wf(),
        ensures
            r == (!self.config.union_all && self.table@.occupied(addr as int)),
    {
        if self.config.union_all {
            return false;
        }
        self.table.check_addr(addr)
    }

    /// Whether a tracked range meets `[addr, addr + len)`; never, when
    /// tracking is off.
    pub fn check_range(&self, addr: u64, len: u64) -> (r: bool)
        requires
            self.wf(),
            addr + len <= u64::MAX,
        ensures
            r == (!self.config.union_all && !self.table@.range_free(addr as int, len as int)),
    {
        if self.config.union_all {
            return false;
        }
        self.table.check_range(addr, len)
    }

    /// Probes region `m` from its top downwards.
    fn scan_region(&self, m: MemoryMapping, size: u64, align: u64, step: u64, grow: bool) -> (r: Option<u64>)
        requires
            self.wf(),
            grow == self.table@.needs_growth(),
            m.wf(),
            m.len >= size,
            align > 0,
            step >= 1,
        ensures
            match r {
                Some(a) => self.scan_down(m.start as int, m.start + m.len - size, size as int, align as int, step as int) == Some(a as int),
                None => self.scan_down(m.start as int, m.start + m.len - size, size as int, align as int, step as int) is None,
            },
    {
        let lo = m.start;
        let mut addr: u64 = m.start + (m.len - size);
        loop
            invariant
                self.wf(),
                grow == self.table@.needs_growth(),
                m.wf(),
                m.len >= size,
                align > 0,
                step >= 1,
                lo == m.start,
                lo <= addr,
                addr + size <= m.start + m.len,
                self.scan_down(lo as int, addr as int, size as int, align as int, step as int)
                    == self.scan_down(m.start as int, m.start + m.len - size, size as int, align as int, step as int),
            decreases addr - lo,
        {
            if addr != 0 && addr % align == 0 && (self.config.union_all || (!self.table.check_range(
                addr,
                size,
            ) && self.table.clear_of_growth(grow, addr, size))) {
                return Some(addr);
            }
            if addr - lo < step {
                return None;
            }
            addr = addr - step;
        }
    }

    /// Finds `size` bytes aligned to `align` top-down in the first region that
    /// has room, and records them as live unless tracking is off.
    pub fn allocate(&mut self, size: u64, align: u64) -> (r: Result<u64, AllocError>)
        requires
            old(self).wf(),
            align > 0,
        ensures
            final(self).wf(),
            final(self).same_setup(old(self)),
            final(self).table@ == old(self).allocate_outcome(size, align).0,
            r == old(self).allocate_outcome(size, align).1,
            match r {
                Ok(a) => a != 0 && a % align == 0 && (old(self).config.union_all || old(self).table@.range_free(a as int, size as int)),
                Err(_) => true,
            },
    {
        let st = step(size, self.config.precision);
        let grow = self.table.needs_growth();
        let mut found: Option<u64> = None;
        let mut i: usize = 0;
        while i < self.memory_map.mappings.len()
            invariant_except_break
                found is None,
                self.search(size as int, align as int) == self.search_from(i as int, size as int, align as int),
            invariant
                self.wf(),
                align > 0,
                st == step_spec(size as int, self.config.precision as int),
                st >= 1,
                grow == self.table@.needs_growth(),
                i <= self.memory_map@.len(),
            ensures
                match found {
                    Some(a) => self.search(size as int, align as int) == Some(a as int),
                    None => self.search(size as int, align as int) is None,
                },
            decreases self.memory_map@.len() - i,
        {
            let m = self.memory_map.mappings[i];
            assert(self.memory_map@[i as int].wf());
            if m.len >= size && m.allocatable() {
                let c = self.scan_region(m, size, align, st, grow);
                if c.is_some() {
                    found = c;
                    break;
                }
            }
            i = i + 1;
        }
        proof {
            self.lemma_search_from_fits(0, size as int, align as int);
        }
        match found {
            None => Err(AllocError::FreeMemoryUnavailable),
            Some(a) => {
                assert(self.search(size as int, align as int) == Some(a as int));
                if self.config.union_all {
                    return Ok(a);
                }
                let res = self.table.add_allocation(Allocation { used: true, addr: a, len: size });
                match res {
                    Ok(()) => Ok(a),
                    Err(e) => Err(e),
                }
            },
        }
    }

    /// Releases the live allocation that starts at `addr`; does nothing when
    /// tracking is off.
    pub fn deallocate(&mut self, addr: u64) -> (r: Result<(), AllocError>)
        requires
            old(self).wf(),
        ensures
            final(self).wf(),
            final(self).same_setup(old(self)),
            final(self).table@ == old(self).deallocate_outcome(addr).0,
            r == old(self).deallocate_outcome(addr).1,
    {
        if self.config.union_all {
            return Ok(());
        }
        self.table.remove_allocation(addr)
    }

    /// Allocates like `allocate`, reporting failure as address zero.
    pub fn alloc_or_zero(&mut self, size: u64, align: u64) -> (r: u64)
        requires
            old(self).wf(),
            align > 0,
        ensures
            final(self).wf(),
            final(self).same_setup(old(self)),
            final(self).table@ == old(self).allocate_outcome(size, align).0,
            r == match old(self).allocate_outcome(size, align).1 {
                Ok(a) => a,
                Err(_) => 0,
            },
            r == 0 <==> old(self).allocate_outcome(size, align).1 is Err,
    {
        match self.allocate(size, align) {
            Ok(a) => a,
            Err(_) => 0,
        }
    }

    /// Releases like `deallocate`, dropping the status.
    pub fn dealloc(&mut self, addr: u64)
        requires
            old(self).wf(),
        ensures
            final(self).wf(),
            final(self).same_setup(old(self)),
            final(self).table@ == old(self).deallocate_outcome(addr).0,
    {
        let _ = self.deallocate(addr);
    }
}

} // verus!
