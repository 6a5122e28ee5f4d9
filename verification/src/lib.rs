//! Syscall entry layer of a library OS running inside an isolated execution
//! environment. Numbered requests arrive with six raw argument words; words
//! that name caller memory are validated against a model of the caller-owned
//! address space, materialized into owned data, and handed to the internal
//! subsystems (filesystem, process table, memory areas, clock), whose state
//! is modeled here as explicit data. Results travel back on a single word:
//! non-negative on success, a negative errno otherwise.

use vstd::prelude::*;

pub mod clock;
pub mod errno;
pub mod fs;
pub mod kernel;
pub mod materialize;
pub mod process;
pub mod syscall;
pub mod umem;
pub mod vm;
