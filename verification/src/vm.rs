//! Model of the memory-area collaborator: bookkeeping of mapped areas and
//! the program break. Page tables and placement policy stay outside the
//! model, which hands out fresh ranges from a bump allocator, so every
//! area it tracks is disjoint from every other.

use vstd::prelude::*;

use crate::errno::Errno;

verus! {

/// Bottom of the range the model maps areas in.
pub const VM_BASE: u64 = 0x1000_0000;

/// Top of the range the model maps areas in.
pub const VM_TOP: u64 = 0x8000_0000;

/// Bottom of the program-break range.
pub const BRK_BASE: u64 = 0x0800_0000;

/// Top of the program-break range.
pub const BRK_TOP: u64 = 0x1000_0000;

/// One mapped area and the protection flags it was created with.
#[derive(Clone, Copy, PartialEq, Eq, Structural, Debug)]
pub struct Area {
    pub start: u64,
    pub len: u64,
    pub flags: u32,
}

/// The memory-area state: the mapped areas, the program break, and the
/// next address the bump allocator will hand out.
pub struct Vm {
    pub areas: Vec<Area>,
    pub brk: u64,
    pub next_base: u64,
}

impl Vm {
    pub open spec fn wf(self) -> bool {
        &&& BRK_BASE <= self.brk <= BRK_TOP
        &&& VM_BASE <= self.next_base <= VM_TOP
        &&& forall|i: int|
            0 <= i < self.areas@.len() ==> VM_BASE <= (#[trigger] self.areas@[i]).start
                && self.areas@[i].len > 0 && self.areas@[i].start + self.areas@[i].len
                <= self.next_base
    }

    /// The state at start: nothing mapped, break at the bottom.
    pub fn boot() -> (r: Vm)
        ensures
            r.wf(),
            r.areas@.len() == 0,
            r.brk == BRK_BASE,
            r.next_base == VM_BASE,
    {
        Vm { areas: Vec::new(), brk: BRK_BASE, next_base: VM_BASE }
    }

    /// Map a fresh area of `size` bytes with the given protection flags.
    /// The address hint of the request is accepted but the model places
    /// the area itself. `EINVAL` for an empty request, `ENOMEM` when the
    /// range is exhausted; neither changes anything.
    pub fn mmap(&mut self, size: u64, flags: u32) -> (r: Result<u64, Errno>)
        requires
            old(self).wf(),
        ensures
            final(self).wf(),
            final(self).brk == old(self).brk,
            r is Ok <==> 0 < size <= VM_TOP - old(self).next_base,
            r matches Err(e) ==> e == (if size == 0 {
                Errno::EINVAL
            } else {
                Errno::ENOMEM
            }),
            r is Err ==> *final(self) == *old(self),
            r matches Ok(a) ==> {
                &&& a == old(self).next_base
                &&& final(self).next_base == old(self).next_base + size
                &&& final(self).areas@ == old(self).areas@.push(
                    Area { start: old(self).next_base, len: size, flags },
                )
            },
    {
        if size == 0 {
            return Err(Errno::EINVAL);
        }
        if size > VM_TOP - self.next_base {
            return Err(Errno::ENOMEM);
        }
        let start = self.next_base;
        self.areas.push(Area { start, len: size, flags });
        self.next_base = start + size;
        Ok(start)
    }

    /// Unmap exactly one previously mapped area, named by its exact start
    /// and length. `EINVAL`, with no change, when no such area exists.
    pub fn munmap(&mut self, addr: u64, size: u64) -> (r: Result<(), Errno>)
        requires
            old(self).wf(),
        ensures
            final(self).wf(),
            final(self).brk == old(self).brk,
            final(self).next_base == old(self).next_base,
            r is Ok <==> exists|i: int|
                0 <= i < old(self).areas@.len() && (#[trigger] old(self).areas@[i]).start == addr
                    && old(self).areas@[i].len == size,
            r is Ok ==> exists|i: int|
                {
                    &&& 0 <= i < old(self).areas@.len()
                    &&& (#[trigger] old(self).areas@[i]).start == addr
                    &&& old(self).areas@[i].len == size
                    &&& final(self).areas@ == old(self).areas@.remove(i)
                },
            r is Err ==> *final(self) == *old(self),
            r matches Err(e) ==> e == Errno::EINVAL,
    {
        let n = self.areas.len();
        let mut i: usize = 0;
        while i < n
            invariant
                old(self).wf(),
                *self == *old(self),
                n == self.areas@.len(),
                i <= n,
                forall|j: int|
                    0 <= j < i ==> !((#[trigger] self.areas@[j]).start == addr && self.areas@[j].len
                        == size),
            decreases n - i,
        {
            let a = self.areas[i];
            if a.start == addr && a.len == size {
                self.areas.remove(i);
                return Ok(());
            }
            i = i + 1;
        }
        Err(Errno::EINVAL)
    }

    /// Move and resize one area, named by its exact start and length, to a
    /// fresh range of `new_size` bytes with the same flags. Returns the
    /// new start. Fails with no change: `EINVAL` for an empty new size,
    /// `EFAULT` for an unknown area, `ENOMEM` when the range is exhausted.
    pub fn mremap(&mut self, old_addr: u64, old_size: u64, new_size: u64) -> (r: Result<u64, Errno>)
        requires
            old(self).wf(),
        ensures
            final(self).wf(),
            final(self).brk == old(self).brk,
            new_size == 0 ==> r == Err::<u64, Errno>(Errno::EINVAL),
            r is Ok ==> exists|i: int|
                {
                    &&& 0 <= i < old(self).areas@.len()
                    &&& (#[trigger] old(self).areas@[i]).start == old_addr
                    &&& old(self).areas@[i].len == old_size
                    &&& final(self).areas@ == old(self).areas@.remove(i).push(
                        Area {
                            start: old(self).next_base,
                            len: new_size,
                            flags: old(self).areas@[i].flags,
                        },
                    )
                    &&& r == Ok::<u64, Errno>(old(self).next_base)
                    &&& final(self).next_base == old(self).next_base + new_size
                },
            r is Ok <==> 0 < new_size <= VM_TOP - old(self).next_base && (exists|i: int|
                0 <= i < old(self).areas@.len() && (#[trigger] old(self).areas@[i]).start
                    == old_addr && old(self).areas@[i].len == old_size),
            r is Err ==> *final(self) == *old(self),
            r matches Err(e) ==> e == (if new_size == 0 {
                Errno::EINVAL
            } else if !(exists|i: int|
                0 <= i < old(self).areas@.len() && (#[trigger] old(self).areas@[i]).start
                    == old_addr && old(self).areas@[i].len == old_size) {
                Errno::EFAULT
            } else {
                Errno::ENOMEM
            }),
    {
        if new_size == 0 {
            return Err(Errno::EINVAL);
        }
        let n = self.areas.len();
        let mut i: usize = 0;
        while i < n
            invariant
                old(self).wf(),
                *self == *old(self),
                new_size != 0,
                n == self.areas@.len(),
                i <= n,
                forall|j: int|
                    0 <= j < i ==> !((#[trigger] self.areas@[j]).start == old_addr
                        && self.areas@[j].len == old_size),
            decreases n - i,
        {
            let a = self.areas[i];
            if a.start == old_addr && a.len == old_size {
                if new_size > VM_TOP - self.next_base {
                    return Err(Errno::ENOMEM);
                }
                let start = self.next_base;
                self.areas.remove(i);
                self.areas.push(Area { start, len: new_size, flags: a.flags });
                self.next_base = start + new_size;
                return Ok(start);
            }
            i = i + 1;
        }
        Err(Errno::EFAULT)
    }

    /// Move the program break. A target outside the break range leaves the
    /// break where it is; either way the current break is returned, so the
    /// call never fails.
    pub fn brk(&mut self, new_brk: u64) -> (r: u64)
        requires
            old(self).wf(),
        ensures
            final(self).wf(),
            final(self).areas == old(self).areas,
            final(self).next_base == old(self).next_base,
            (BRK_BASE <= new_brk <= BRK_TOP) ==> final(self).brk == new_brk && r == new_brk,
            !(BRK_BASE <= new_brk <= BRK_TOP) ==> final(self).brk == old(self).brk && r == old(
                self,
            ).brk,
    {
        if new_brk >= BRK_BASE && new_brk <= BRK_TOP {
            self.brk = new_brk;
            new_brk
        } else {
            self.brk
        }
    }
}

} // verus!
