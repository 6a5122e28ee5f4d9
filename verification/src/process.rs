//! Model of the process-table collaborator: the processes the layer can
//! observe, child spawning, the wait filter, and exit bookkeeping. The
//! scheduler itself is outside this layer; a child that terminates is
//! reported through `finish_child`, and a wait that would block is reported
//! as `EAGAIN` rather than parking the calling thread.

use vstd::prelude::*;

use crate::errno::Errno;

verus! {

/// Largest process id the model hands out.
pub const PID_MAX: u32 = 0x4000_0000;

/// One owned, typed file action of a spawn request, parsed out of the
/// caller's action-record list. `Open` exists as a tag in the foreign
/// record format but is not implementable here: parsing it is a defined
/// failure, so no value of that variant is ever produced by the parser.
#[derive(Debug)]
pub enum FileAction {
    /// Close the child's descriptor.
    Close(u32),
    /// Duplicate `src` onto `dst` in the child: `Dup2(src, dst)`.
    Dup2(u32, u32),
    /// Open a path for the child; accepted as a tag only.
    Open { path: Vec<u8>, flags: u32, mode: u32 },
}

/// Which children a wait call may select.
#[derive(Clone, Copy, PartialEq, Eq, Structural, Debug)]
pub enum ChildProcessFilter {
    WithAnyPID,
    WithPID(u32),
    WithPGID(u32),
}

/// The wait-filter constructor: a pure, total mapping from the signed pid
/// argument of a wait call to a child-selection mode. A pid below -1 names
/// the process group of its magnitude; -1 names any child; 0 names the
/// caller's own group; a positive pid names exactly that child.
pub fn wait_filter(pid: i32, caller_pgid: u32) -> (r: ChildProcessFilter)
    ensures
        pid < -1 ==> r == ChildProcessFilter::WithPGID((-(pid as int)) as u32),
        pid == -1 ==> r == ChildProcessFilter::WithAnyPID,
        pid == 0 ==> r == ChildProcessFilter::WithPGID(caller_pgid),
        pid > 0 ==> r == ChildProcessFilter::WithPID(pid as u32),
{
    if pid < -1 {
        let mag = (-(pid as i64)) as u32;
        ChildProcessFilter::WithPGID(mag)
    } else if pid == -1 {
        ChildProcessFilter::WithAnyPID
    } else if pid == 0 {
        ChildProcessFilter::WithPGID(caller_pgid)
    } else {
        ChildProcessFilter::WithPID(pid as u32)
    }
}

/// Whether a process satisfies a wait filter.
pub open spec fn filter_matches(f: ChildProcessFilter, p: Proc) -> bool {
    match f {
        ChildProcessFilter::WithAnyPID => true,
        ChildProcessFilter::WithPID(pid) => p.pid == pid,
        ChildProcessFilter::WithPGID(pgid) => p.pgid == pgid,
    }
}

/// One process as the table records it.
#[derive(Clone, Copy, PartialEq, Eq, Structural, Debug)]
pub struct Proc {
    pub pid: u32,
    pub ppid: u32,
    pub pgid: u32,
    /// Still running. A process that exited stays in the table until reaped.
    pub alive: bool,
    /// Its exit status has been collected by a wait.
    pub reaped: bool,
    pub status: i32,
}

/// The process table: every observable process, the index of the calling
/// process, and the next unused pid.
pub struct ProcTable {
    pub procs: Vec<Proc>,
    pub cur: usize,
    pub next_pid: u32,
}

impl ProcTable {
    pub open spec fn wf(self) -> bool {
        &&& self.cur < self.procs@.len()
        &&& forall|i: int, j: int|
            #![trigger self.procs@[i].pid, self.procs@[j].pid]
            0 <= i < self.procs@.len() && 0 <= j < self.procs@.len() && i != j
                ==> self.procs@[i].pid != self.procs@[j].pid
        &&& forall|i: int|
            0 <= i < self.procs@.len() ==> 1 <= #[trigger] self.procs@[i].pid < self.next_pid
        &&& self.next_pid <= PID_MAX
    }

    /// The calling process.
    pub open spec fn current(self) -> Proc {
        self.procs@[self.cur as int]
    }

    /// A child of the caller whose exit status a wait with this filter
    /// could collect right now.
    pub open spec fn reapable(self, f: ChildProcessFilter, i: int) -> bool {
        &&& 0 <= i < self.procs@.len()
        &&& self.procs@[i].ppid == self.current().pid
        &&& filter_matches(f, self.procs@[i])
        &&& !self.procs@[i].alive
        &&& !self.procs@[i].reaped
    }

    /// A child of the caller that this filter selects and that could still
    /// satisfy a wait, now or after it exits.
    pub open spec fn eligible(self, f: ChildProcessFilter, i: int) -> bool {
        &&& 0 <= i < self.procs@.len()
        &&& self.procs@[i].ppid == self.current().pid
        &&& filter_matches(f, self.procs@[i])
        &&& (self.procs@[i].alive || !self.procs@[i].reaped)
    }

    /// The table at start: one running process, pid 1, in group 1.
    pub fn boot() -> (r: ProcTable)
        ensures
            r.wf(),
            r.procs@.len() == 1,
            r.current() == (Proc { pid: 1, ppid: 0, pgid: 1, alive: true, reaped: false, status: 0 }),
            r.next_pid == 2,
    {
        let mut procs: Vec<Proc> = Vec::new();
        procs.push(Proc { pid: 1, ppid: 0, pgid: 1, alive: true, reaped: false, status: 0 });
        ProcTable { procs, cur: 0, next_pid: 2 }
    }

    /// The caller's pid.
    pub fn getpid(&self) -> (r: u32)
        requires
            self.wf(),
        ensures
            r == self.current().pid,
    {
        self.procs[self.cur].pid
    }

    /// The caller's parent pid.
    pub fn getppid(&self) -> (r: u32)
        requires
            self.wf(),
        ensures
            r == self.current().ppid,
    {
        self.procs[self.cur].ppid
    }

    /// The caller's process-group id.
    pub fn getpgid(&self) -> (r: u32)
        requires
            self.wf(),
        ensures
            r == self.current().pgid,
    {
        self.procs[self.cur].pgid
    }

    /// Create a child of the caller, in the caller's group, with a fresh
    /// pid. Fails only when the pid space is exhausted, and then changes
    /// nothing.
    pub fn add_child(&mut self) -> (r: Result<u32, Errno>)
        requires
            old(self).wf(),
        ensures
            final(self).wf(),
            r is Ok <==> old(self).next_pid < PID_MAX,
            r matches Ok(pid) ==> {
                &&& pid == old(self).next_pid
                &&& final(self).procs@ == old(self).procs@.push(
                    Proc {
                        pid: old(self).next_pid,
                        ppid: old(self).current().pid,
                        pgid: old(self).current().pgid,
                        alive: true,
                        reaped: false,
                        status: 0,
                    },
                )
                &&& final(self).cur == old(self).cur
                &&& final(self).next_pid == old(self).next_pid + 1
            },
            r is Err ==> *final(self) == *old(self),
            r matches Err(e) ==> e == Errno::EAGAIN,
    {
        if self.next_pid >= PID_MAX {
            return Err(Errno::EAGAIN);
        }
        let pid = self.next_pid;
        let parent = self.procs[self.cur];
        self.procs.push(
            Proc {
                pid,
                ppid: parent.pid,
                pgid: parent.pgid,
                alive: true,
                reaped: false,
                status: 0,
            },
        );
        self.next_pid = pid + 1;
        Ok(pid)
    }

    /// Record that the process with this pid has terminated with `status`:
    /// the event the scheduler outside this layer would deliver.
    pub fn finish_child(&mut self, pid: u32, status: i32) -> (r: Result<(), Errno>)
        requires
            old(self).wf(),
        ensures
            final(self).wf(),
            r is Ok <==> exists|i: int|
                0 <= i < old(self).procs@.len() && old(self).procs@[i].pid == pid && old(
                    self,
                ).procs@[i].alive,
            r is Ok ==> exists|i: int|
                {
                    &&& 0 <= i < old(self).procs@.len()
                    &&& old(self).procs@[i].pid == pid
                    &&& old(self).procs@[i].alive
                    &&& final(self).procs@ == old(self).procs@.update(
                        i,
                        Proc { alive: false, status, ..old(self).procs@[i] },
                    )
                },
            r is Ok ==> final(self).cur == old(self).cur && final(self).next_pid == old(
                self,
            ).next_pid,
            r is Err ==> *final(self) == *old(self),
            r matches Err(e) ==> e == Errno::ESRCH,
    {
        let n = self.procs.len();
        let mut i: usize = 0;
        while i < n
            invariant
                old(self).wf(),
                *self == *old(self),
                n == self.procs@.len(),
                i <= n,
                forall|j: int| 0 <= j < i ==> !(self.procs@[j].pid == pid && self.procs@[j].alive),
            decreases n - i,
        {
            let p = self.procs[i];
            if p.pid == pid && p.alive {
                self.procs.set(i, Proc { alive: false, status, ..p });
                return Ok(());
            }
            i = i + 1;
        }
        Err(Errno::ESRCH)
    }

    /// Mark the calling process itself as exited with `status`. The caller
    /// of the layer interprets the accompanying terminate outcome as the
    /// end of this execution context; there is no error channel.
    pub fn exit_current(&mut self, status: i32)
        requires
            old(self).wf(),
        ensures
            final(self).wf(),
            final(self).procs@ == old(self).procs@.update(
                old(self).cur as int,
                Proc { alive: false, status, ..old(self).current() },
            ),
            final(self).cur == old(self).cur,
            final(self).next_pid == old(self).next_pid,
    {
        let p = self.procs[self.cur];
        let c = self.cur;
        self.procs.set(c, Proc { alive: false, status, ..p });
    }

    /// Collect the exit status of one child the filter selects. If a child
    /// is dead and not yet reaped, it is reaped and its pid and status are
    /// returned. If only running children match, the call would block:
    /// the model reports `EAGAIN` instead of parking the thread. If no
    /// child can ever match, `ECHILD`.
    pub fn wait4(&mut self, f: ChildProcessFilter) -> (r: Result<(u32, i32), Errno>)
        requires
            old(self).wf(),
        ensures
            final(self).wf(),
            r is Ok <==> exists|i: int| old(self).reapable(f, i),
            r matches Ok(v) ==> exists|i: int|
                {
                    &&& old(self).reapable(f, i)
                    &&& v == (old(self).procs@[i].pid, old(self).procs@[i].status)
                    &&& final(self).procs@ == old(self).procs@.update(
                        i,
                        Proc { reaped: true, ..old(self).procs@[i] },
                    )
                },
            r is Ok ==> final(self).cur == old(self).cur && final(self).next_pid == old(
                self,
            ).next_pid,
            r is Err ==> *final(self) == *old(self),
            r == Err::<(u32, i32), Errno>(Errno::EAGAIN) <==> !(exists|i: int|
                old(self).reapable(f, i)) && (exists|i: int| old(self).eligible(f, i)),
            r == Err::<(u32, i32), Errno>(Errno::ECHILD) <==> !(exists|i: int|
                old(self).eligible(f, i)),
    {
        let n = self.procs.len();
        let me = self.procs[self.cur].pid;
        let mut i: usize = 0;
        while i < n
            invariant
                old(self).wf(),
                *self == *old(self),
                me == self.current().pid,
                n == self.procs@.len(),
                i <= n,
                forall|j: int| 0 <= j < i ==> !self.reapable(f, j),
            decreases n - i,
        {
            let p = self.procs[i];
            if p.ppid == me && !p.alive && !p.reaped && filter_hit(f, &p) {
                proof {
                    assert(old(self).reapable(f, i as int));
                    assert(old(self).eligible(f, i as int));
                }
                self.procs.set(i, Proc { reaped: true, ..p });
                proof {
                    assert(self.procs@ == old(self).procs@.update(
                        i as int,
                        Proc { reaped: true, ..old(self).procs@[i as int] },
                    ));
                }
                return Ok((p.pid, p.status));
            }
            i = i + 1;
        }
        let mut j: usize = 0;
        while j < n
            invariant
                old(self).wf(),
                *self == *old(self),
                me == self.current().pid,
                n == self.procs@.len(),
                j <= n,
                forall|t: int| 0 <= t < n ==> !self.reapable(f, t),
                forall|t: int| 0 <= t < j ==> !self.eligible(f, t),
            decreases n - j,
        {
            let p = self.procs[j];
            if p.ppid == me && (p.alive || !p.reaped) && filter_hit(f, &p) {
                proof {
                    assert(self.eligible(f, j as int));
                    assert forall|t: int| !self.reapable(f, t) by {
                        if 0 <= t < self.procs@.len() {
                            assert(!self.reapable(f, t));
                        }
                    }
                }
                return Err(Errno::EAGAIN);
            }
            j = j + 1;
        }
        proof {
            assert forall|t: int| !self.eligible(f, t) by {
                if 0 <= t < self.procs@.len() {
                    assert(!self.eligible(f, t));
                }
            }
            assert forall|t: int| !self.reapable(f, t) by {
                assert(self.reapable(f, t) ==> self.eligible(f, t));
            }
        }
        Err(Errno::ECHILD)
    }
}

/// Executable twin of `filter_matches`.
fn filter_hit(f: ChildProcessFilter, p: &Proc) -> (r: bool)
    ensures
        r == filter_matches(f, *p),
{
    match f {
        ChildProcessFilter::WithAnyPID => true,
        ChildProcessFilter::WithPID(pid) => p.pid == pid,
        ChildProcessFilter::WithPGID(pgid) => p.pgid == pgid,
    }
}

} // verus!
