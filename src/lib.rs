//! A bootstrap physical-memory allocator.
//!
//! The allocator reads a firmware memory map, places its own allocation table
//! inside the first region able to host it, and then hands out and takes back
//! address ranges, top-down within each allocatable region.
use vstd::prelude::*;

pub mod memory_map;
pub mod error;
pub mod table;
pub mod allocator;
pub mod lifecycle;
pub mod lemmas;
