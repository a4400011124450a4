//! The allocation table: a header followed by a growable array of allocation
//! records, stored at the start of the region that hosts it.
//!
//! Record `i` lives at `start + HEADER_SIZE + i * RECORD_SIZE`; the table's
//! footprint is `[start, start + HEADER_SIZE + capacity)`, which is tracked
//! memory like any live allocation.
use vstd::prelude::*;
use crate::error::AllocError;

verus! {

/// Size in bytes of one allocation record.
pub const RECORD_SIZE: u64 = 24;

/// Size in bytes of the table header.
pub const HEADER_SIZE: u64 = 32;

/// Number of records a new table has room for.
pub const MIN_RECORDS: u64 = 32;

/// Capacity in bytes of the record array of a new table.
pub const INITIAL_CAPACITY: u64 = MIN_RECORDS * RECORD_SIZE;

/// One live or retired allocation.
#[derive(Clone, Copy, Debug, PartialEq, Eq, Structural)]
pub struct Allocation {
    /// Whether the allocation is live. Retired records stay in place so the
    /// table never has to be shifted.
    pub used: bool,
    /// The first address of the allocation.
    pub addr: u64,
    /// The length of the allocation in bytes.
    pub len: u64,
}

/// The header that describes the table's own footprint.
#[derive(Clone, Copy, Debug, PartialEq, Eq, Structural)]
pub struct AllocationHeader {
    /// Always set: the table itself is in use.
    pub used: bool,
    /// The address the header is stored at.
    pub addr: u64,
    /// The capacity in bytes of the record array.
    pub len: u64,
    /// The number of populated records.
    pub num_allocations: u64,
}

/// Whether the ranges `[a, a + n)` and `[s, s + l)` share an address.
pub open spec fn overlaps(a: int, n: int, s: int, l: int) -> bool {
    n > 0 && l > 0 && a < s + l && s < a + n
}

/// Whether `x` lies in `[a, a + n)`.
pub open spec fn contains(a: int, n: int, x: int) -> bool {
    a <= x < a + n
}

/// The mathematical content of an allocation table.
pub struct TableModel {
    /// Where the header is stored.
    pub start: int,
    /// Capacity in bytes of the record array.
    pub cap: int,
    /// Length of the hosting region, which the footprint never leaves.
    pub limit: int,
    /// The populated records, in slot order.
    pub records: Seq<Allocation>,
}

impl TableModel {
    /// Number of bytes the table itself occupies.
    pub open spec fn footprint_len(self) -> int {
        HEADER_SIZE + self.cap
    }

    /// First address past the table's footprint.
    pub open spec fn footprint_end(self) -> int {
        self.start + self.footprint_len()
    }

    /// Record `i` exists and is live.
    pub open spec fn live(self, i: int) -> bool {
        0 <= i < self.records.len() && self.records[i].used
    }

    /// Some tracked range (the table or a live record) holds address `x`.
    pub open spec fn occupied(self, x: int) -> bool {
        contains(self.start, self.footprint_len(), x) || exists|i: int|
            #![trigger self.records[i]]
            self.live(i) && contains(self.records[i].addr as int, self.records[i].len as int, x)
    }

    /// No tracked range shares an address with `[a, a + n)`.
    pub open spec fn range_free(self, a: int, n: int) -> bool {
        !overlaps(a, n, self.start, self.footprint_len()) && forall|i: int|
            #![trigger self.records[i]]
            self.live(i) ==> !overlaps(
                a,
                n,
                self.records[i].addr as int,
                self.records[i].len as int,
            )
    }

    /// The table's invariant: its footprint stays inside the hosting region,
    /// the records fit the capacity, and live records are pairwise disjoint
    /// and disjoint from the table.
    pub open spec fn wf(self) -> bool {
        &&& INITIAL_CAPACITY <= self.cap
        &&& self.records.len() * RECORD_SIZE <= self.cap
        &&& HEADER_SIZE + self.cap <= self.limit
        &&& 0 <= self.start
        &&& self.start + self.limit <= u64::MAX
        &&& forall|i: int|
            #![trigger self.records[i]]
            self.live(i) ==> {
                &&& self.records[i].addr + self.records[i].len <= u64::MAX
                &&& !overlaps(
                    self.records[i].addr as int,
                    self.records[i].len as int,
                    self.start,
                    self.footprint_len(),
                )
            }
        &&& forall|i: int, j: int|
            #![trigger self.records[i], self.records[j]]
            self.live(i) && self.live(j) && i != j ==> !overlaps(
                self.records[i].addr as int,
                self.records[i].len as int,
                self.records[j].addr as int,
                self.records[j].len as int,
            )
    }

    /// Slot `i` is the first retired record.
    pub open spec fn first_unused(self, i: int) -> bool {
        &&& 0 <= i < self.records.len()
        &&& !self.records[i].used
        &&& forall|j: int| 0 <= j < i ==> (#[trigger] self.records[j]).used
    }

    /// Registering one more record would have to grow the table: no slot is
    /// retired and the record array is full.
    pub open spec fn needs_growth(self) -> bool {
        !(exists|i: int| self.first_unused(i)) && (self.records.len() + 1) * RECORD_SIZE > self.cap
    }

    /// `[a, a + n)` stays out of the bytes the table grows into when the next
    /// record is registered.
    pub open spec fn clear_of_growth(self, a: int, n: int) -> bool {
        !self.needs_growth() || !overlaps(self.footprint_end(), RECORD_SIZE as int, a, n)
    }

    /// Slot `i` is the first live record that starts at `addr`.
    pub open spec fn first_live_at(self, i: int, addr: int) -> bool {
        &&& self.live(i)
        &&& self.records[i].addr == addr
        &&& forall|j: int|
            0 <= j < i ==> !((#[trigger] self.records[j]).used && self.records[j].addr == addr)
    }

    /// The table with the same footprint and the given records.
    pub open spec fn with_records(self, records: Seq<Allocation>) -> TableModel {
        TableModel { start: self.start, cap: self.cap, limit: self.limit, records }
    }

    /// The outcome of growing the record array by `by` bytes: refused when the
    /// bytes right after the footprint are tracked.
    pub open spec fn header_extended(self, by: int) -> Result<TableModel, AllocError> {
        if self.range_free(self.footprint_end(), by) {
            Ok(TableModel { start: self.start, cap: self.cap + by, limit: self.limit, records: self.records })
        } else {
            Err(AllocError::ExtendAllocationOtherAllocation)
        }
    }

    /// The outcome of registering `a`: the first retired slot is overwritten;
    /// with none, `a` is appended, growing the table by one record first when
    /// it is full.
    pub open spec fn added(self, a: Allocation) -> Result<TableModel, AllocError> {
        if exists|i: int| self.first_unused(i) {
            let i = choose|i: int| self.first_unused(i);
            Ok(self.with_records(self.records.update(i, a)))
        } else if (self.records.len() + 1) * RECORD_SIZE <= self.cap {
            Ok(self.with_records(self.records.push(a)))
        } else if self.footprint_len() + RECORD_SIZE > self.limit {
            Err(AllocError::TooManyAllocations)
        } else if overlaps(self.footprint_end(), RECORD_SIZE as int, a.addr as int, a.len as int) {
            Err(AllocError::ExtendAllocationOtherAllocation)
        } else {
            match self.header_extended(RECORD_SIZE as int) {
                Ok(t) => Ok(t.with_records(t.records.push(a))),
                Err(e) => Err(e),
            }
        }
    }

    /// The outcome of lengthening record `idx` by `by` bytes.
    pub open spec fn extended(self, idx: int, by: int) -> Result<TableModel, AllocError> {
        if idx < 0 || idx >= self.records.len() {
            Err(AllocError::ExtendAllocationInvalidIndex)
        } else if !self.records[idx].used {
            Err(AllocError::ExtendAllocationAllocationUnused)
        } else if self.records[idx].addr + self.records[idx].len + by > u64::MAX
            || !self.range_free(self.records[idx].addr + self.records[idx].len, by) {
            Err(AllocError::ExtendAllocationOtherAllocation)
        } else {
            let r = self.records[idx];
            Ok(self.with_records(self.records.update(idx, Allocation { used: true, addr: r.addr, len: (r.len + by) as u64 })))
        }
    }

    /// The outcome of releasing the allocation that starts at `addr`.
    pub open spec fn released(self, addr: int) -> Result<TableModel, AllocError> {
        if exists|i: int| self.first_live_at(i, addr) {
            let i = choose|i: int| self.first_live_at(i, addr);
            let r = self.records[i];
            Ok(self.with_records(self.records.update(i, Allocation { used: false, addr: r.addr, len: r.len })))
        } else {
            Err(AllocError::MemoryNotAllocated)
        }
    }
}

/// Overwriting slot `i` with `a` keeps the invariant when `a` stays inside the
/// address space and clear of the table and of every other live record.
proof fn lemma_replace_keeps_wf(t: TableModel, i: int, a: Allocation)
    requires
        t.wf(),
        0 <= i < t.records.len(),
        a.addr + a.len <= u64::MAX,
        !overlaps(a.addr as int, a.len as int, t.start, t.footprint_len()),
        forall|j: int|
            #![trigger t.records[j]]
            t.live(j) && j != i ==> !overlaps(
                a.addr as int,
                a.len as int,
                t.records[j].addr as int,
                t.records[j].len as int,
            ),
    ensures
        t.with_records(t.records.update(i, a)).wf(),
{
    let u = t.with_records(t.records.update(i, a));
    assert forall|p: int, q: int|
        #![trigger u.records[p], u.records[q]]
        u.live(p) && u.live(q) && p != q implies !overlaps(
            u.records[p].addr as int,
            u.records[p].len as int,
            u.records[q].addr as int,
            u.records[q].len as int,
        ) by {
        if p != i && q != i {
            assert(t.live(p) && t.live(q));
        } else if p == i {
            assert(t.live(q));
        } else {
            assert(t.live(p));
        }
    }
    assert forall|p: int|
        #![trigger u.records[p]]
        u.live(p) implies u.records[p].addr + u.records[p].len <= u64::MAX && !overlaps(
            u.records[p].addr as int,
            u.records[p].len as int,
            u.start,
            u.footprint_len(),
        ) by {
        if p != i {
            assert(t.live(p));
        }
    }
}

/// The result of a table operation as a new table, or the old one on failure.
pub open spec fn after(old: TableModel, outcome: Result<TableModel, AllocError>) -> TableModel {
    match outcome {
        Ok(t) => t,
        Err(_) => old,
    }
}

/// The status part of a table operation's outcome.
pub open spec fn status(outcome: Result<TableModel, AllocError>) -> Result<(), AllocError> {
    match outcome {
        Ok(_) => Ok(()),
        Err(e) => Err(e),
    }
}

/// The allocation table, hosted at the start of one memory region.
#[derive(Debug)]
pub struct AllocationTable {
    /// The table's header.
    pub header: AllocationHeader,
    /// Length of the hosting region.
    pub max_allocations_size: u64,
    /// The populated records.
    pub records: Vec<Allocation>,
}

impl View for AllocationTable {
    type V = TableModel;

    open spec fn view(&self) -> TableModel {
        TableModel {
            start: self.header.addr as int,
            cap: self.header.len as int,
            limit: self.max_allocations_size as int,
            records: self.records@,
        }
    }
}

impl AllocationTable {
    /// The table's invariant.
    pub open spec fn wf(&self) -> bool {
        &&& self@.wf()
        &&& self.header.used
        &&& self.header.num_allocations == self.records@.len()
    }

    /// The table a region starting at `start` and `len` bytes long hosts when
    /// first set up: room for the minimum number of records and one retired
    /// record.
    pub open spec fn initial(start: int, len: int) -> TableModel {
        TableModel {
            start,
            cap: INITIAL_CAPACITY as int,
            limit: len,
            records: seq![Allocation { used: false, addr: 0, len: 0 }],
        }
    }

    /// Sets up a table at the start of a region.
    pub fn new(start: u64, len: u64) -> (r: AllocationTable)
        requires
            len >= HEADER_SIZE + INITIAL_CAPACITY,
            start + len <= u64::MAX,
        ensures
            r.wf(),
            r@ == Self::initial(start as int, len as int),
    {
        let mut records: Vec<Allocation> = Vec::new();
        records.push(Allocation { used: false, addr: 0, len: 0 });
        let r = AllocationTable {
            header: AllocationHeader { used: true, addr: start, len: INITIAL_CAPACITY, num_allocations: 1 },
            max_allocations_size: len,
            records,
        };
        assert(r@.records =~= Self::initial(start as int, len as int).records);
        r
    }

    /// Returns the number of populated records.
    pub fn number_of_allocations(&self) -> (r: u64)
        requires
            self.wf(),
        ensures
            r == self@.records.len(),
    {
        self.header.num_allocations
    }

    /// Whether registering one more record would have to grow the table.
    pub fn needs_growth(&self) -> (r: bool)
        requires
            self.wf(),
        ensures
            r == self@.needs_growth(),
    {
        let mut i: usize = 0;
        while i < self.records.len()
            invariant
                self.wf(),
                i <= self@.records.len(),
                forall|j: int| 0 <= j < i ==> (#[trigger] self@.records[j]).used,
            decreases self@.records.len() - i,
        {
            if !self.records[i].used {
                assert(self@.first_unused(i as int));
                return false;
            }
            i = i + 1;
        }
        assert(!exists|k: int| self@.first_unused(k));
        let n = self.records.len() as u64;
        (n + 1) * RECORD_SIZE > self.header.len
    }

    /// Whether `[addr, addr + len)` stays out of the bytes the table grows
    /// into, given whether the next record needs growth.
    pub fn clear_of_growth(&self, grow: bool, addr: u64, len: u64) -> (r: bool)
        requires
            self.wf(),
            grow == self@.needs_growth(),
        ensures
            r == self@.clear_of_growth(addr as int, len as int),
    {
        if !grow || len == 0 {
            return true;
        }
        let end = self.header.addr + HEADER_SIZE + self.header.len;
        if addr >= end {
            addr - end >= RECORD_SIZE
        } else {
            end - addr >= len
        }
    }

    /// Whether a tracked range holds `addr`.
    pub fn check_addr(&self, addr: u64) -> (r: bool)
        requires
            self.wf(),
        ensures
            r == self@.occupied(addr as int),
    {
        let h = self.header;
        if addr >= h.addr && addr - h.addr < HEADER_SIZE + h.len {
            return true;
        }
        let mut i: usize = 0;
        while i < self.records.len()
            invariant
                self.wf(),
                i <= self@.records.len(),
                !contains(self@.start, self@.footprint_len(), addr as int),
                forall|j: int|
                    0 <= j < i ==> !(self@.live(j) && contains(
                        (#[trigger] self@.records[j]).addr as int,
                        self@.records[j].len as int,
                        addr as int,
                    )),
            decreases self@.records.len() - i,
        {
            let a = self.records[i];
            if a.used && addr >= a.addr && addr - a.addr < a.len {
                assert(self@.live(i as int));
                return true;
            }
            i = i + 1;
        }
        false
    }

    /// Whether a tracked range shares an address with `[addr, addr + len)`.
    pub fn check_range(&self, addr: u64, len: u64) -> (r: bool)
        requires
            self.wf(),
            addr + len <= u64::MAX,
        ensures
            r == !self@.range_free(addr as int, len as int),
    {
        let h = self.header;
        if len > 0 && addr < h.addr + HEADER_SIZE + h.len && h.addr < addr + len {
            return true;
        }
        let mut i: usize = 0;
        while i < self.records.len()
            invariant
                self.wf(),
                addr + len <= u64::MAX,
                i <= self@.records.len(),
                !overlaps(addr as int, len as int, self@.start, self@.footprint_len()),
                forall|j: int|
                    0 <= j < i && self@.live(j) ==> !overlaps(
                        addr as int,
                        len as int,
                        (#[trigger] self@.records[j]).addr as int,
                        self@.records[j].len as int,
                    ),
            decreases self@.records.len() - i,
        {
            let a = self.records[i];
            assert(self@.live(i as int) ==> a.addr + a.len <= u64::MAX);
            if a.used && len > 0 && a.len > 0 && addr < a.addr + a.len && a.addr < addr + len {
                assert(self@.live(i as int));
                return true;
            }
            i = i + 1;
        }
        false
    }

    /// Grows the record array in place by `by` bytes, provided the bytes
    /// right after the footprint are untracked.
    pub fn extend_allocation_header(&mut self, by: u64) -> (r: Result<(), AllocError>)
        requires
            old(self).wf(),
            old(self)@.footprint_len() + by <= old(self)@.limit,
        ensures
            final(self).wf(),
            r == status(old(self)@.header_extended(by as int)),
            final(self)@ == after(old(self)@, old(self)@.header_extended(by as int)),
    {
        let end = self.header.addr + HEADER_SIZE + self.header.len;
        if self.check_range(end, by) {
            return Err(AllocError::ExtendAllocationOtherAllocation);
        }
        self.header.len = self.header.len + by;
        Ok(())
    }

    /// Registers `allocation`, reusing the first retired slot if there is
    /// one, else appending it and growing the table first when it is full.
    pub fn add_allocation(&mut self, allocation: Allocation) -> (r: Result<(), AllocError>)
        requires
            old(self).wf(),
            allocation.addr + allocation.len <= u64::MAX,
            old(self)@.range_free(allocation.addr as int, allocation.len as int),
        ensures
            final(self).wf(),
            r == status(old(self)@.added(allocation)),
            final(self)@ == after(old(self)@, old(self)@.added(allocation)),
    {
        let ghost t0 = self@;
        let mut i: usize = 0;
        while i < self.records.len()
            invariant
                self@ == t0,
                old(self)@ == t0,
                self.wf(),
                allocation.addr + allocation.len <= u64::MAX,
                t0.range_free(allocation.addr as int, allocation.len as int),
                i <= t0.records.len(),
                forall|j: int| 0 <= j < i ==> (#[trigger] t0.records[j]).used,
            decreases t0.records.len() - i,
        {
            if !self.records[i].used {
                assert(t0.first_unused(i as int));
                proof {
                    let k = choose|k: int| t0.first_unused(k);
                    assert(k == i) by {
                        if k < i {
                            assert(t0.records[k].used);
                        }
                        if i < k {
                            assert(t0.records[i as int].used);
                        }
                    }
                }
                proof {
                    lemma_replace_keeps_wf(t0, i as int, allocation);
                }
                self.records.set(i, allocation);
                proof {
                    assert(self@.records =~= t0.records.update(i as int, allocation));
                    assert(self@ == t0.with_records(t0.records.update(i as int, allocation)));
                }
                return Ok(());
            }
            i = i + 1;
        }
        assert(!exists|k: int| t0.first_unused(k));
        let n = self.records.len() as u64;
        if (n + 1) * RECORD_SIZE > self.header.len {
            if self.max_allocations_size - HEADER_SIZE - self.header.len < RECORD_SIZE {
                return Err(AllocError::TooManyAllocations);
            }
            let end = self.header.addr + HEADER_SIZE + self.header.len;
            if allocation.len > 0 && end < allocation.addr + allocation.len
                && allocation.addr < end + RECORD_SIZE {
                return Err(AllocError::ExtendAllocationOtherAllocation);
            }
            let res = self.extend_allocation_header(RECORD_SIZE);
            if res.is_err() {
                return res;
            }
        }
        let ghost t1 = self@;
        self.records.push(allocation);
        self.header.num_allocations = self.header.num_allocations + 1;
        assert(self@.records =~= t1.records.push(allocation));
        Ok(())
    }

    /// Lengthens live record `idx` by `by` bytes, provided the bytes right
    /// after it are untracked.
    pub fn extend_allocation(&mut self, idx: u64, by: u64) -> (r: Result<(), AllocError>)
        requires
            old(self).wf(),
        ensures
            final(self).wf(),
            r == status(old(self)@.extended(idx as int, by as int)),
            final(self)@ == after(old(self)@, old(self)@.extended(idx as int, by as int)),
    {
        let n: usize = self.records.len();
        if idx >= n as u64 {
            return Err(AllocError::ExtendAllocationInvalidIndex);
        }
        let k: usize = idx as usize;
        let a = self.records[k];
        if !a.used {
            return Err(AllocError::ExtendAllocationAllocationUnused);
        }
        assert(self@.live(idx as int));
        let end = a.addr + a.len;
        if by > u64::MAX - end {
            return Err(AllocError::ExtendAllocationOtherAllocation);
        }
        if self.check_range(end, by) {
            return Err(AllocError::ExtendAllocationOtherAllocation);
        }
        let ghost t0 = self@;
        let b = Allocation { used: true, addr: a.addr, len: a.len + by };
        proof {
            lemma_replace_keeps_wf(t0, idx as int, b);
        }
        self.records.set(k, b);
        assert(self@.records =~= t0.records.update(idx as int, b));
        Ok(())
    }

    /// Retires the first live record that starts at `addr`.
    pub fn remove_allocation(&mut self, addr: u64) -> (r: Result<(), AllocError>)
        requires
            old(self).wf(),
        ensures
            final(self).wf(),
            r == status(old(self)@.released(addr as int)),
            final(self)@ == after(old(self)@, old(self)@.released(addr as int)),
    {
        let ghost t0 = self@;
        let mut i: usize = 0;
        while i < self.records.len()
            invariant
                self@ == t0,
                old(self)@ == t0,
                self.wf(),
                i <= t0.records.len(),
                forall|j: int|
                    0 <= j < i ==> !((#[trigger] t0.records[j]).used && t0.records[j].addr == addr),
            decreases t0.records.len() - i,
        {
            let a = self.records[i];
            if a.used && a.addr == addr {
                assert(t0.first_live_at(i as int, addr as int));
                proof {
                    let k = choose|k: int| t0.first_live_at(k, addr as int);
                    assert(k == i) by {
                        if k < i {
                            assert(t0.records[k].used);
                        }
                        if i < k {
                            assert(t0.records[i as int].used);
                        }
                    }
                }
                let b = Allocation { used: false, addr: a.addr, len: a.len };
                proof {
                    lemma_replace_keeps_wf(t0, i as int, b);
                }
                self.records.set(i, b);
                assert(self@.records =~= t0.records.update(i as int, b));
                return Ok(());
            }
            i = i + 1;
        }
        assert(!exists|k: int| t0.first_live_at(k, addr as int));
        Err(AllocError::MemoryNotAllocated)
    }
}

} // verus!
