//! The lifecycle wrapper: an allocator slot that starts empty, is filled once,
//! and keeps the outcome of the latest request for callers that only see a
//! bare success or failure.
use vstd::prelude::*;
use crate::allocator::{AllocConfig, MemoryMapAlloc};
use crate::error::AllocError;
use crate::memory_map::MemoryMap;

verus! {

/// The status part of a request's result.
pub open spec fn status_of<T>(r: Result<T, AllocError>) -> Result<(), AllocError> {
    match r {
        Ok(_) => Ok(()),
        Err(e) => Err(e),
    }
}

/// An allocator that may not be set up yet, with the outcome of the latest
/// allocation or release request.
#[derive(Debug)]
pub struct MaybeMemoryMapAlloc {
    /// The allocator, once initialized.
    pub allocator: Option<MemoryMapAlloc>,
    /// The outcome of the latest allocation or release request.
    pub last_error: Result<(), AllocError>,
}

impl MaybeMemoryMapAlloc {
    /// The wrapper's invariant: a held allocator is well formed.
    pub open spec fn wf(&self) -> bool {
        match self.allocator {
            Some(a) => a.wf(),
            None => true,
        }
    }

    /// A wrapper holding `engine`, initialized exactly when it is given.
    pub fn new(engine: Option<MemoryMapAlloc>) -> (r: MaybeMemoryMapAlloc)
        requires
            match engine {
                Some(a) => a.wf(),
                None => true,
            },
        ensures
            r.wf(),
            r.allocator == engine,
            r.last_error == Ok::<(), AllocError>(()),
    {
        MaybeMemoryMapAlloc { allocator: engine, last_error: Ok(()) }
    }

    /// Whether the allocator has been set up.
    pub fn is_initialized(&self) -> (r: bool)
        ensures
            r == self.allocator is Some,
    {
        self.allocator.is_some()
    }

    /// Installs `engine` unless an allocator is already installed, in which
    /// case nothing changes.
    pub fn add_alloc(&mut self, engine: MemoryMapAlloc)
        requires
            old(self).wf(),
            engine.wf(),
        ensures
            final(self).wf(),
            final(self).last_error == old(self).last_error,
            final(self).allocator == match old(self).allocator {
                Some(a) => Some(a),
                None => Some(engine),
            },
    {
        if self.allocator.is_some() {
            return;
        }
        self.allocator = Some(engine);
    }

    /// Sets up the allocator on `memory_map` the first time it is called;
    /// later calls change nothing and succeed.
    pub fn memory_map_alloc_init(&mut self, memory_map: MemoryMap, config: AllocConfig) -> (r: Result<(), AllocError>)
        requires
            old(self).wf(),
            memory_map.wf(),
        ensures
            final(self).wf(),
            final(self).last_error == old(self).last_error,
            old(self).allocator is Some ==> r is Ok && final(self).allocator == old(self).allocator,
            old(self).allocator is None ==> match r {
                Ok(_) => final(self).allocator is Some && MemoryMapAlloc::new_ok(
                    memory_map,
                    config,
                    final(self).allocator->Some_0,
                ),
                Err(e) => e == AllocError::AllocationsNotEnoughSpace && final(self).allocator is None
                    && !MemoryMapAlloc::can_start(memory_map@),
            },
    {
        if self.allocator.is_some() {
            return Ok(());
        }
        match MemoryMapAlloc::new(memory_map, config) {
            Ok(a) => {
                self.add_alloc(a);
                Ok(())
            },
            Err(e) => Err(e),
        }
    }

    /// The allocator, if it has been set up.
    pub fn get_allocator(&self) -> (r: Option<&MemoryMapAlloc>)
        ensures
            match self.allocator {
                Some(a) => r == Some(&a),
                None => r is None,
            },
    {
        match &self.allocator {
            Some(a) => Some(a),
            None => None,
        }
    }

    /// The allocator, which the caller knows has been set up.
    pub fn get_allocator_unchecked(&self) -> (r: &MemoryMapAlloc)
        requires
            self.allocator is Some,
        ensures
            *r == self.allocator->Some_0,
    {
        self.allocator.as_ref().unwrap()
    }

    /// The outcome of the latest allocation or release request.
    pub fn last_error(&self) -> (r: Result<(), AllocError>)
        ensures
            r == self.last_error,
    {
        self.last_error
    }

    /// Allocates `size` bytes aligned to `align` through the installed
    /// allocator, or fails when there is none. The outcome is also kept as
    /// the latest status.
    pub fn allocate(&mut self, size: u64, align: u64) -> (r: Result<u64, AllocError>)
        requires
            old(self).wf(),
            align > 0,
        ensures
            final(self).wf(),
            final(self).last_error == status_of(r),
            match old(self).allocator {
                None => r == Err::<u64, AllocError>(AllocError::MaybeMemoryMapAllocUninitalized)
                    && final(self).allocator is None,
                Some(a) => final(self).allocator is Some && final(self).allocator->Some_0.same_setup(&a)
                    && final(self).allocator->Some_0.table@ == a.allocate_outcome(size, align).0
                    && r == a.allocate_outcome(size, align).1,
            },
            match r {
                Ok(x) => x != 0 && x % align == 0,
                Err(_) => true,
            },
    {
        self.last_error = Ok(());
        let r = match &mut self.allocator {
            Some(a) => a.allocate(size, align),
            None => Err(AllocError::MaybeMemoryMapAllocUninitalized),
        };
        self.last_error = match r {
            Ok(_) => Ok(()),
            Err(e) => Err(e),
        };
        r
    }

    /// Releases the allocation at `addr` through the installed allocator, or
    /// fails when there is none. The outcome is also kept as the latest
    /// status.
    pub fn deallocate(&mut self, addr: u64) -> (r: Result<(), AllocError>)
        requires
            old(self).wf(),
        ensures
            final(self).wf(),
            final(self).last_error == r,
            match old(self).allocator {
                None => r == Err::<(), AllocError>(AllocError::MaybeMemoryMapAllocUninitalized)
                    && final(self).allocator is None,
                Some(a) => final(self).allocator is Some && final(self).allocator->Some_0.same_setup(&a)
                    && final(self).allocator->Some_0.table@ == a.deallocate_outcome(addr).0
                    && r == a.deallocate_outcome(addr).1,
            },
    {
        self.last_error = Ok(());
        let r = match &mut self.allocator {
            Some(a) => a.deallocate(addr),
            None => Err(AllocError::MaybeMemoryMapAllocUninitalized),
        };
        self.last_error = r;
        r
    }

    /// Allocates like `allocate`, reporting failure as address zero; the
    /// reason is left in the latest status.
    pub fn alloc_or_zero(&mut self, size: u64, align: u64) -> (r: u64)
        requires
            old(self).wf(),
            align > 0,
        ensures
            final(self).wf(),
            match old(self).allocator {
                None => r == 0 && final(self).allocator is None && final(self).last_error
                    == Err::<(), AllocError>(AllocError::MaybeMemoryMapAllocUninitalized),
                Some(a) => final(self).allocator is Some && final(self).allocator->Some_0.same_setup(&a)
                    && final(self).allocator->Some_0.table@ == a.allocate_outcome(size, align).0
                    && final(self).last_error == status_of(a.allocate_outcome(size, align).1)
                    && r == match a.allocate_outcome(size, align).1 {
                        Ok(x) => x,
                        Err(_) => 0,
                    }
                    && (r == 0 <==> a.allocate_outcome(size, align).1 is Err),
            },
    {
        match self.allocate(size, align) {
            Ok(a) => a,
            Err(_) => 0,
        }
    }

    /// Releases like `deallocate`; the outcome is only kept as the latest
    /// status.
    pub fn dealloc(&mut self, addr: u64)
        requires
            old(self).wf(),
        ensures
            final(self).wf(),
            match old(self).allocator {
                None => final(self).allocator is None && final(self).last_error
                    == Err::<(), AllocError>(AllocError::MaybeMemoryMapAllocUninitalized),
                Some(a) => final(self).allocator is Some && final(self).allocator->Some_0.same_setup(&a)
                    && final(self).allocator->Some_0.table@ == a.deallocate_outcome(addr).0
                    && final(self).last_error == a.deallocate_outcome(addr).1,
            },
    {
        let _ = self.deallocate(addr);
    }
}

} // verus!
