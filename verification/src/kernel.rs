//! The combined state of the external collaborators the syscall layer
//! drives: filesystem, process table, memory areas, and clock.

use vstd::prelude::*;

use crate::clock::Clock;
use crate::fs::Fs;
use crate::process::ProcTable;
use crate::vm::Vm;

verus! {

/// Everything the layer can change on behalf of a caller. The dispatcher
/// holds no state of its own: all of it lives here, in the collaborators.
pub struct Kernel {
    pub fs: Fs,
    pub procs: ProcTable,
    pub vm: Vm,
    pub clock: Clock,
}

impl Kernel {
    pub open spec fn wf(self) -> bool {
        self.fs.wf() && self.procs.wf() && self.vm.wf() && self.clock.wf()
    }

    /// The freshly booted state every collaborator starts from.
    pub fn boot() -> (r: Kernel)
        ensures
            r.wf(),
            r.fs.table@.len() == 0,
            r.fs.files@.len() == 0,
            r.fs.pipes@.len() == 0,
            r.fs.cwd@ == seq![47u8],
            r.procs.procs@.len() == 1,
            r.procs.current().pid == 1,
            r.procs.current().pgid == 1,
            r.vm.areas@.len() == 0,
            r.clock.sec == 0 && r.clock.usec == 0,
    {
        Kernel { fs: Fs::boot(), procs: ProcTable::boot(), vm: Vm::boot(), clock: Clock::boot() }
    }
}

} // verus!
