//! Laws of the allocator that relate several operations.
use vstd::prelude::*;
use crate::allocator::MemoryMapAlloc;
use crate::error::AllocError;
use crate::table::{overlaps, Allocation, TableModel, RECORD_SIZE};

verus! {

/// Registering a live allocation keeps every live record where it was, with
/// the same start and length, and makes the new allocation a live record.
pub proof fn lemma_added_keeps_live(t: TableModel, a: Allocation)
    requires
        a.used,
    ensures
        match t.added(a) {
            Ok(u) => {
                &&& u.start == t.start
                &&& u.cap >= t.cap
                &&& u.records.len() >= t.records.len()
                &&& exists|k: int| #![trigger u.records[k]] u.live(k) && u.records[k] == a
                &&& forall|i: int| #![trigger u.records[i]] t.live(i) ==> u.live(i) && u.records[i] == t.records[i]
            },
            Err(_) => true,
        },
{
    if exists|i: int| t.first_unused(i) {
        let k = choose|i: int| t.first_unused(i);
        let u = t.with_records(t.records.update(k, a));
        assert(u.live(k) && u.records[k] == a);
    } else {
        match t.added(a) {
            Ok(u) => {
                let k = t.records.len() as int;
                assert(u.records[k] == a);
                assert(u.live(k));
            },
            Err(_) => {},
        }
    }
}

/// A search result fits and lies, with its whole range, inside the 64-bit
/// address space.
proof fn lemma_search_in_address_space(m: MemoryMapAlloc, size: u64, align: u64)
    requires
        m.wf(),
    ensures
        match m.search(size as int, align as int) {
            Some(x) => m.fits(x, size as int, align as int) && 0 <= x && x + size <= u64::MAX,
            None => true,
        },
{
    m.lemma_search_from_fits(0, size as int, align as int);
    match m.search(size as int, align as int) {
        Some(x) => {
            let j = choose|j: int|
                #![trigger m.memory_map@[j]]
                0 <= j < m.memory_map@.len() && m.memory_map@[j].allocatable_spec()
                    && m.memory_map@[j].start <= x && x + size <= m.memory_map@[j].start
                    + m.memory_map@[j].len;
            assert(m.memory_map@[j].wf());
        },
        None => {},
    }
}

/// An address handed out with tracking on is nonzero and aligned, and lies
/// clear of the allocation table and of every live allocation at the time of
/// the request.
pub proof fn lemma_allocation_is_clear(m: MemoryMapAlloc, size: u64, align: u64)
    requires
        m.wf(),
        align > 0,
        !m.config.union_all,
    ensures
        match m.allocate_outcome(size, align).1 {
            Ok(x) => {
                &&& x != 0
                &&& x % align == 0
                &&& x + size <= u64::MAX
                &&& m.table@.range_free(x as int, size as int)
            },
            Err(_) => true,
        },
{
    lemma_search_in_address_space(m, size, align);
}

/// A successful allocation with tracking on leaves every live record
/// untouched and records the new range as live.
pub proof fn lemma_allocation_keeps_records(m: MemoryMapAlloc, size: u64, align: u64)
    requires
        m.wf(),
        align > 0,
        !m.config.union_all,
    ensures
        match m.allocate_outcome(size, align).1 {
            Ok(x) => {
                let u = m.allocate_outcome(size, align).0;
                &&& exists|k: int|
                    #![trigger u.records[k]]
                    u.live(k) && u.records[k] == (Allocation { used: true, addr: x, len: size })
                &&& forall|i: int|
                    #![trigger u.records[i]]
                    m.table@.live(i) ==> u.live(i) && u.records[i] == m.table@.records[i]
            },
            Err(_) => true,
        },
{
    lemma_allocation_is_clear(m, size, align);
    match m.search(size as int, align as int) {
        Some(x) => {
            let a = Allocation { used: true, addr: x as u64, len: size };
            lemma_added_keeps_live(m.table@, a);
            match m.table@.added(a) {
                Ok(u) => {
                    let k = choose|k: int| #![trigger u.records[k]] u.live(k) && u.records[k] == a;
                    assert(m.allocate_outcome(size, align).0 == u);
                    assert(u.live(k) && u.records[k] == a);
                },
                Err(_) => {},
            }
        },
        None => {},
    }
}

/// Two successive successful allocations with tracking on hand out disjoint
/// ranges.
pub proof fn lemma_successive_allocations_disjoint(
    m0: MemoryMapAlloc,
    m1: MemoryMapAlloc,
    size1: u64,
    align1: u64,
    size2: u64,
    align2: u64,
)
    requires
        m0.wf(),
        m1.wf(),
        align1 > 0,
        align2 > 0,
        !m0.config.union_all,
        m1.same_setup(&m0),
        m1.table@ == m0.allocate_outcome(size1, align1).0,
        m0.allocate_outcome(size1, align1).1 is Ok,
        m1.allocate_outcome(size2, align2).1 is Ok,
    ensures
        !overlaps(
            m0.allocate_outcome(size1, align1).1->Ok_0 as int,
            size1 as int,
            m1.allocate_outcome(size2, align2).1->Ok_0 as int,
            size2 as int,
        ),
{
    lemma_allocation_keeps_records(m0, size1, align1);
    lemma_allocation_is_clear(m1, size2, align2);
    let u = m1.table@;
    let x1 = m0.allocate_outcome(size1, align1).1->Ok_0;
    let k = choose|k: int|
        #![trigger u.records[k]]
        u.live(k) && u.records[k] == (Allocation { used: true, addr: x1, len: size1 });
    assert(u.live(k));
}

/// After a release, a successful allocation with tracking on meets no
/// allocation that is still live: it gets the freed range or another free
/// one.
pub proof fn lemma_reuse_after_release(
    m0: MemoryMapAlloc,
    m1: MemoryMapAlloc,
    addr: u64,
    size: u64,
    align: u64,
)
    requires
        m0.wf(),
        m1.wf(),
        align > 0,
        !m0.config.union_all,
        m1.same_setup(&m0),
        m1.table@ == m0.deallocate_outcome(addr).0,
    ensures
        match m1.allocate_outcome(size, align).1 {
            Ok(x) => forall|i: int|
                #![trigger m1.table@.records[i]]
                m1.table@.live(i) ==> !overlaps(
                    x as int,
                    size as int,
                    m1.table@.records[i].addr as int,
                    m1.table@.records[i].len as int,
                ),
            Err(_) => true,
        },
{
    lemma_allocation_is_clear(m1, size, align);
}

/// When the table is full and has no retired slot, an allocation that finds
/// an address succeeds whenever one more record fits the hosting region and
/// the bytes after the table are untracked (the search itself keeps the new
/// range out of those bytes); a successful one grows the table by one record in place and appends the new
/// record after all existing ones, which keep their start and length.
pub proof fn lemma_growth_keeps_records(m: MemoryMapAlloc, size: u64, align: u64)
    requires
        m.wf(),
        align > 0,
        !m.config.union_all,
        forall|i: int| 0 <= i < m.table@.records.len() ==> (#[trigger] m.table@.records[i]).used,
        (m.table@.records.len() + 1) * RECORD_SIZE > m.table@.cap,
    ensures
        match m.allocate_outcome(size, align).1 {
            Ok(x) => {
                let u = m.allocate_outcome(size, align).0;
                &&& u.start == m.table@.start
                &&& u.cap == m.table@.cap + RECORD_SIZE
                &&& u.records == m.table@.records.push(Allocation { used: true, addr: x, len: size })
            },
            Err(_) => true,
        },
        match m.search(size as int, align as int) {
            Some(x) => {
                m.table@.footprint_len() + RECORD_SIZE <= m.table@.limit
                    && m.table@.range_free(m.table@.footprint_end(), RECORD_SIZE as int)
                    ==> m.allocate_outcome(size, align).1 == Ok::<u64, AllocError>(x as u64)
            },
            None => true,
        },
{
    assert(!exists|i: int| m.table@.first_unused(i));
    lemma_search_in_address_space(m, size, align);
}

/// A release retires at most one record, one that started at the released
/// address: every record live afterwards was live before with the same start
/// and length, and every live record that started elsewhere stays live.
pub proof fn lemma_release_keeps_others(m: MemoryMapAlloc, addr: u64)
    requires
        m.wf(),
    ensures
        forall|i: int|
            #![trigger m.deallocate_outcome(addr).0.records[i]]
            m.deallocate_outcome(addr).0.live(i) ==> m.table@.live(i)
                && m.deallocate_outcome(addr).0.records[i] == m.table@.records[i],
        forall|i: int|
            #![trigger m.table@.records[i]]
            m.table@.live(i) && m.table@.records[i].addr != addr ==> m.deallocate_outcome(addr).0.live(i)
                && m.deallocate_outcome(addr).0.records[i] == m.table@.records[i],
        m.deallocate_outcome(addr).0.records.len() == m.table@.records.len(),
{
}

/// Registering a record in a full table with no retired slot, when one more
/// record fits the hosting region, the bytes after the table are untracked
/// and the record stays out of them, grows the table by one record in place
/// and appends the record after all existing ones, which stay as they were.
pub proof fn lemma_add_with_growth(t: TableModel, a: Allocation)
    requires
        forall|i: int| 0 <= i < t.records.len() ==> (#[trigger] t.records[i]).used,
        (t.records.len() + 1) * RECORD_SIZE > t.cap,
        t.footprint_len() + RECORD_SIZE <= t.limit,
        t.range_free(t.footprint_end(), RECORD_SIZE as int),
        !overlaps(t.footprint_end(), RECORD_SIZE as int, a.addr as int, a.len as int),
    ensures
        t.added(a) == Ok::<TableModel, AllocError>(
            TableModel { start: t.start, cap: t.cap + RECORD_SIZE, limit: t.limit, records: t.records.push(a) },
        ),
{
    assert(!exists|i: int| t.first_unused(i));
}

/// With no region below it, the first `i` regions being too short means the
/// search from region `i` on finds nothing either way.
proof fn lemma_search_from_too_large(m: MemoryMapAlloc, i: int, size: u64, align: u64)
    requires
        forall|j: int|
            0 <= j < m.memory_map@.len() && (#[trigger] m.memory_map@[j]).allocatable_spec()
                ==> m.memory_map@[j].len < size,
    ensures
        m.search_from(i, size as int, align as int) is None,
    decreases m.memory_map@.len() - i,
{
    if 0 <= i < m.memory_map@.len() {
        lemma_search_from_too_large(m, i + 1, size, align);
    }
}

/// A request larger than every allocatable region fails with
/// `FreeMemoryUnavailable` and leaves the table unchanged.
pub proof fn lemma_too_large_fails(m: MemoryMapAlloc, size: u64, align: u64)
    requires
        forall|j: int|
            0 <= j < m.memory_map@.len() && (#[trigger] m.memory_map@[j]).allocatable_spec()
                ==> m.memory_map@[j].len < size,
    ensures
        m.allocate_outcome(size, align) == (m.table@, Err::<u64, AllocError>(AllocError::FreeMemoryUnavailable)),
{
    lemma_search_from_too_large(m, 0, size, align);
}

} // verus!
