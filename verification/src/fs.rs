//! Model of the filesystem collaborator: a descriptor table, regular files
//! addressed by path, unidirectional pipes, and the current working path.
//! The layer validates and materializes caller data, then drives this state;
//! directory storage semantics stay outside the model, which therefore
//! exposes no directory descriptors.

use vstd::prelude::*;

use crate::errno::Errno;

verus! {

/// A descriptor: a small non-negative handle into the per-process table.
pub type FileDesc = u32;

/// Size of the descriptor table.
pub const FD_MAX: u32 = 1024;

/// Largest file size and offset the model supports.
pub const FILE_MAX: u64 = 0x4000_0000;

/// Longest path the model accepts.
pub const PATH_MAX: u64 = 4096;

/// The create bit of the open flags word.
pub const O_CREAT: u32 = 0o100;

/// Kind word reported by stat for a regular file.
pub const S_KIND_REG: u32 = 1;

/// Kind word reported by stat for a pipe end.
pub const S_KIND_PIPE: u32 = 2;

/// What an open descriptor points at.
#[derive(Clone, Copy, PartialEq, Eq, Structural, Debug)]
pub enum Handle {
    /// A regular file and the descriptor's own offset into it.
    Reg { ino: usize, off: u64 },
    /// The read end of a pipe.
    PipeR { id: usize },
    /// The write end of a pipe.
    PipeW { id: usize },
}

/// One regular file.
pub struct FileNode {
    pub path: Vec<u8>,
    pub data: Vec<u8>,
}

/// What stat reports about a file or descriptor.
#[derive(Clone, Copy, PartialEq, Eq, Structural, Debug)]
pub struct Stat {
    pub size: u64,
    pub kind: u32,
}

/// Where a seek measures its offset from.
#[derive(Clone, Copy, PartialEq, Eq, Structural, Debug)]
pub enum SeekFrom {
    Start(u64),
    Current(i64),
    End(i64),
}

/// File contents after writing `d` at offset `off`, zero-filling any gap
/// between the old end and `off`.
pub open spec fn write_at(data: Seq<u8>, off: int, d: Seq<u8>) -> Seq<u8> {
    Seq::new(
        if off + d.len() > data.len() {
            (off + d.len()) as nat
        } else {
            data.len()
        },
        |i: int|
            if off <= i < off + d.len() {
                d[i - off]
            } else if i < data.len() {
                data[i]
            } else {
                0u8
            },
    )
}

/// File contents after truncating or zero-extending to length `n`.
pub open spec fn resized(data: Seq<u8>, n: int) -> Seq<u8> {
    Seq::new(
        n as nat,
        |i: int|
            if i < data.len() {
                data[i]
            } else {
                0u8
            },
    )
}

/// The target offset a seek names, before range checks.
pub open spec fn seek_target(size: int, off: int, from: SeekFrom) -> int {
    match from {
        SeekFrom::Start(s) => s as int,
        SeekFrom::Current(d) => off + d,
        SeekFrom::End(d) => size + d,
    }
}

/// The filesystem state.
pub struct Fs {
    pub table: Vec<Option<Handle>>,
    pub files: Vec<FileNode>,
    pub pipes: Vec<Vec<u8>>,
    pub cwd: Vec<u8>,
}

impl Fs {
    pub open spec fn wf(self) -> bool {
        &&& self.table@.len() <= FD_MAX
        &&& forall|fd: int|
            0 <= fd < self.table@.len() ==> match #[trigger] self.table@[fd] {
                Some(Handle::Reg { ino, off }) => ino < self.files@.len() && off <= FILE_MAX,
                Some(Handle::PipeR { id }) => id < self.pipes@.len(),
                Some(Handle::PipeW { id }) => id < self.pipes@.len(),
                None => true,
            }
        &&& forall|i: int|
            0 <= i < self.files@.len() ==> (#[trigger] self.files@[i].data)@.len() <= FILE_MAX
                && 1 <= self.files@[i].path@.len() <= PATH_MAX
        &&& forall|i: int, j: int|
            #![trigger self.files@[i].path, self.files@[j].path]
            0 <= i < self.files@.len() && 0 <= j < self.files@.len() && i != j
                ==> self.files@[i].path@ != self.files@[j].path@
        &&& 1 <= self.cwd@.len() <= PATH_MAX
    }

    /// What descriptor `fd` points at; `None` beyond the table too.
    pub open spec fn handle(self, fd: u32) -> Option<Handle> {
        if fd < self.table@.len() {
            self.table@[fd as int]
        } else {
            None
        }
    }

    pub open spec fn is_open(self, fd: u32) -> bool {
        self.handle(fd) is Some
    }

    /// A regular file with this path exists.
    pub open spec fn has_path(self, p: Seq<u8>) -> bool {
        exists|i: int| 0 <= i < self.files@.len() && (#[trigger] self.files@[i].path)@ == p
    }

    /// A free descriptor slot exists.
    pub open spec fn free_fd(self) -> bool {
        (exists|g: int| 0 <= g < self.table@.len() && self.table@[g] is None)
            || self.table@.len() < FD_MAX
    }

    /// Two descriptors can be allocated.
    pub open spec fn two_free_fds(self) -> bool {
        ||| (exists|i: int, j: int|
            0 <= i < self.table@.len() && 0 <= j < self.table@.len() && i != j
                && #[trigger] self.table@[i] is None && #[trigger] self.table@[j] is None)
        ||| ((exists|i: int| 0 <= i < self.table@.len() && #[trigger] self.table@[i] is None)
            && self.table@.len() < FD_MAX)
        ||| self.table@.len() + 2 <= FD_MAX
    }

    /// The filesystem at start: nothing open, no files, working path `/`.
    pub fn boot() -> (r: Fs)
        ensures
            r.wf(),
            r.table@.len() == 0,
            r.files@.len() == 0,
            r.pipes@.len() == 0,
            r.cwd@ == seq![47u8],
    {
        let mut cwd: Vec<u8> = Vec::new();
        cwd.push(47u8);
        proof {
            assert(cwd@ =~= seq![47u8]);
        }
        Fs { table: Vec::new(), files: Vec::new(), pipes: Vec::new(), cwd }
    }

    /// Set the current working path: models the surrounding process state.
    pub fn set_cwd(&mut self, p: &Vec<u8>)
        requires
            old(self).wf(),
            1 <= p@.len() <= PATH_MAX,
        ensures
            final(self).wf(),
            final(self).cwd@ == p@,
            final(self).table == old(self).table,
            final(self).files == old(self).files,
            final(self).pipes == old(self).pipes,
    {
        self.cwd = copy_bytes(p);
    }
}

impl Fs {
    /// Look up a regular file by path.
    fn find_file(&self, path: &Vec<u8>) -> (r: Option<usize>)
        requires
            self.wf(),
        ensures
            r matches Some(i) ==> i < self.files@.len() && self.files@[i as int].path@ == path@,
            r is None ==> !self.has_path(path@),
    {
        let n = self.files.len();
        let mut i: usize = 0;
        while i < n
            invariant
                self.wf(),
                n == self.files@.len(),
                i <= n,
                forall|j: int| 0 <= j < i ==> (#[trigger] self.files@[j].path)@ != path@,
            decreases n - i,
        {
            if bytes_eq(&self.files[i].path, path) {
                return Some(i);
            }
            i = i + 1;
        }
        None
    }

    /// Open a path, creating the file when the create bit is set. Returns
    /// the lowest free descriptor, at offset zero. Fails with no effect:
    /// `ENOENT` for an empty or unknown path without the create bit,
    /// `ENFILE` when the table is full.
    pub fn open(&mut self, path: &Vec<u8>, flags: u32, _mode: u32) -> (r: Result<FileDesc, Errno>)
        requires
            old(self).wf(),
            path@.len() <= PATH_MAX,
        ensures
            final(self).wf(),
            final(self).pipes == old(self).pipes,
            final(self).cwd == old(self).cwd,
            r is Ok <==> path@.len() > 0 && (old(self).has_path(path@) || flags & O_CREAT != 0)
                && old(self).free_fd(),
            r matches Err(e) ==> *final(self) == *old(self) && (if path@.len() == 0 || (!old(
                self,
            ).has_path(path@) && flags & O_CREAT == 0) {
                e == Errno::ENOENT
            } else {
                e == Errno::ENFILE
            }),
            r matches Ok(fd) ==> {
                &&& old(self).handle(fd) is None
                &&& (forall|g: u32| g < fd ==> old(self).handle(g) is Some)
                &&& (forall|g: u32| g != fd ==> final(self).handle(g) == old(self).handle(g))
                &&& (old(self).has_path(path@) ==> final(self).files == old(self).files && (
                exists|i: int|
                    {
                        &&& 0 <= i < old(self).files@.len()
                        &&& (#[trigger] old(self).files@[i].path)@ == path@
                        &&& final(self).handle(fd) == Some(
                            Handle::Reg { ino: i as usize, off: 0 },
                        )
                    }))
                &&& (!old(self).has_path(path@) ==> {
                    &&& final(self).files@.len() == old(self).files@.len() + 1
                    &&& final(self).files@.subrange(0, old(self).files@.len() as int) == old(
                        self,
                    ).files@
                    &&& final(self).files@.last().path@ == path@
                    &&& final(self).files@.last().data@ == Seq::<u8>::empty()
                    &&& final(self).handle(fd) == Some(
                        Handle::Reg { ino: old(self).files@.len() as usize, off: 0 },
                    )
                })
            },
    {
        if path.len() == 0 {
            return Err(Errno::ENOENT);
        }
        let found = self.find_file(path);
        if found.is_none() && flags & O_CREAT == 0 {
            return Err(Errno::ENOENT);
        }
        if !self.free_fd_exists() {
            return Err(Errno::ENFILE);
        }
        let ino: usize = match found {
            Some(i) => i,
            None => {
                let i = self.files.len();
                self.files.push(FileNode { path: copy_bytes(path), data: Vec::new() });
                i
            },
        };
        proof {
            assert(self.files@.subrange(0, old(self).files@.len() as int) =~= old(self).files@);
        }
        match alloc_fd(&mut self.table, Handle::Reg { ino, off: 0 }) {
            Ok(fd) => Ok(fd),
            Err(_) => {
                proof {
                    assert(false);
                }
                Err(Errno::ENFILE)
            },
        }
    }

    /// Whether a descriptor slot is free, without changing anything.
    fn free_fd_exists(&self) -> (r: bool)
        requires
            self.wf(),
        ensures
            r == self.free_fd(),
    {
        let n = self.table.len();
        if n < FD_MAX as usize {
            return true;
        }
        let mut i: usize = 0;
        while i < n
            invariant
                self.wf(),
                n == self.table@.len(),
                i <= n,
                forall|j: int| 0 <= j < i ==> #[trigger] self.table@[j] is Some,
            decreases n - i,
        {
            if self.table[i].is_none() {
                return true;
            }
            i = i + 1;
        }
        false
    }

    /// Close a descriptor: frees exactly that slot.
    pub fn close(&mut self, fd: FileDesc) -> (r: Result<(), Errno>)
        requires
            old(self).wf(),
        ensures
            final(self).wf(),
            final(self).files == old(self).files,
            final(self).pipes == old(self).pipes,
            final(self).cwd == old(self).cwd,
            r is Ok <==> old(self).is_open(fd),
            r is Ok ==> final(self).handle(fd) is None && (forall|g: u32|
                g != fd ==> final(self).handle(g) == old(self).handle(g)),
            r is Err ==> *final(self) == *old(self),
            r matches Err(e) ==> e == Errno::EBADF,
    {
        if (fd as usize) < self.table.len() && self.table[fd as usize].is_some() {
            self.table.set(fd as usize, None);
            Ok(())
        } else {
            Err(Errno::EBADF)
        }
    }

    /// Duplicate a descriptor onto the lowest free slot.
    pub fn dup(&mut self, fd: FileDesc) -> (r: Result<FileDesc, Errno>)
        requires
            old(self).wf(),
        ensures
            final(self).wf(),
            final(self).files == old(self).files,
            final(self).pipes == old(self).pipes,
            final(self).cwd == old(self).cwd,
            r is Ok <==> old(self).is_open(fd) && old(self).free_fd(),
            r matches Ok(nfd) ==> {
                &&& old(self).handle(nfd) is None
                &&& (forall|g: u32| g < nfd ==> old(self).handle(g) is Some)
                &&& final(self).handle(nfd) == old(self).handle(fd)
                &&& (forall|g: u32| g != nfd ==> final(self).handle(g) == old(self).handle(g))
            },
            r is Err ==> *final(self) == *old(self),
            r matches Err(e) ==> e == (if old(self).is_open(fd) {
                Errno::ENFILE
            } else {
                Errno::EBADF
            }),
    {
        if (fd as usize) < self.table.len() {
            if let Some(h) = self.table[fd as usize] {
                return alloc_fd(&mut self.table, h);
            }
        }
        Err(Errno::EBADF)
    }

    /// Duplicate `old_fd` onto exactly `new_fd`, silently dropping what
    /// that slot held. Duplicating a descriptor onto itself succeeds and
    /// changes nothing.
    pub fn dup2(&mut self, old_fd: FileDesc, new_fd: FileDesc) -> (r: Result<FileDesc, Errno>)
        requires
            old(self).wf(),
        ensures
            final(self).wf(),
            final(self).files == old(self).files,
            final(self).pipes == old(self).pipes,
            final(self).cwd == old(self).cwd,
            r is Ok <==> old(self).is_open(old_fd) && new_fd < FD_MAX,
            r matches Ok(nfd) ==> nfd == new_fd && final(self).handle(new_fd) == old(self).handle(
                old_fd,
            ) && (forall|g: u32| g != new_fd ==> final(self).handle(g) == old(self).handle(g)),
            r is Err ==> *final(self) == *old(self),
            r matches Err(e) ==> e == Errno::EBADF,
    {
        if (fd_open_at(&self.table, old_fd)).is_none() {
            return Err(Errno::EBADF);
        }
        if new_fd >= FD_MAX {
            return Err(Errno::EBADF);
        }
        if old_fd == new_fd {
            return Ok(new_fd);
        }
        let h = self.table[old_fd as usize];
        while self.table.len() <= new_fd as usize
            invariant
                old(self).wf(),
                self.files == old(self).files,
                self.pipes == old(self).pipes,
                self.cwd == old(self).cwd,
                new_fd < FD_MAX,
                forall|g: u32| self.handle(g) == old(self).handle(g),
                self.wf(),
            decreases FD_MAX - self.table@.len(),
        {
            self.table.push(None);
        }
        self.table.set(new_fd as usize, h);
        Ok(new_fd)
    }

    /// Like `dup2`, but duplicating a descriptor onto itself is an error.
    pub fn dup3(&mut self, old_fd: FileDesc, new_fd: FileDesc, _flags: u32) -> (r: Result<
        FileDesc,
        Errno,
    >)
        requires
            old(self).wf(),
        ensures
            final(self).wf(),
            final(self).files == old(self).files,
            final(self).pipes == old(self).pipes,
            final(self).cwd == old(self).cwd,
            r is Ok <==> old(self).is_open(old_fd) && new_fd < FD_MAX && old_fd != new_fd,
            r matches Ok(nfd) ==> nfd == new_fd && final(self).handle(new_fd) == old(self).handle(
                old_fd,
            ) && (forall|g: u32| g != new_fd ==> final(self).handle(g) == old(self).handle(g)),
            r is Err ==> *final(self) == *old(self),
            r matches Err(e) ==> e == (if old_fd == new_fd {
                Errno::EINVAL
            } else {
                Errno::EBADF
            }),
    {
        if old_fd == new_fd {
            return Err(Errno::EINVAL);
        }
        self.dup2(old_fd, new_fd)
    }
}

impl Fs {
    /// Read up to `len` bytes from a descriptor. A regular file yields the
    /// bytes at the descriptor's offset and advances it; the read end of a
    /// pipe yields and consumes the oldest buffered bytes, in first-in
    /// first-out order. Anything else is `EBADF`.
    pub fn read_fd(&mut self, fd: FileDesc, len: u64) -> (r: Result<Vec<u8>, Errno>)
        requires
            old(self).wf(),
        ensures
            final(self).wf(),
            final(self).files == old(self).files,
            final(self).cwd == old(self).cwd,
            r is Ok <==> (old(self).handle(fd) matches Some(Handle::Reg { .. }) || old(
                self,
            ).handle(fd) matches Some(Handle::PipeR { .. })),
            r is Err ==> *final(self) == *old(self),
            r matches Err(e) ==> e == Errno::EBADF,
            (old(self).handle(fd) matches Some(Handle::Reg { ino, off }) ==> {
                let data = old(self).files@[ino as int].data@;
                let n = if off + len <= data.len() {
                    len as int
                } else if off <= data.len() {
                    data.len() - off
                } else {
                    0
                };
                &&& (r matches Ok(v) ==> v@.len() == n && (forall|j: int|
                    0 <= j < n ==> v@[j] == data[off + j]))
                &&& final(self).handle(fd) == Some(Handle::Reg { ino, off: (off + n) as u64 })
                &&& (forall|g: u32| g != fd ==> final(self).handle(g) == old(self).handle(g))
                &&& final(self).pipes == old(self).pipes
            }),
            (old(self).handle(fd) matches Some(Handle::PipeR { id }) ==> {
                let p = old(self).pipes@[id as int]@;
                let n = if len <= p.len() {
                    len as int
                } else {
                    p.len() as int
                };
                &&& (r matches Ok(v) ==> v@ == p.take(n))
                &&& final(self).table == old(self).table
                &&& final(self).pipes@.len() == old(self).pipes@.len()
                &&& final(self).pipes@[id as int]@ == p.skip(n)
                &&& (forall|j: int|
                    0 <= j < old(self).pipes@.len() && j != id ==> final(self).pipes@[j] == old(
                        self,
                    ).pipes@[j])
            }),
    {
        match fd_open_at(&self.table, fd) {
            Some(Handle::Reg { ino, off }) => {
                let data_len = self.files[ino].data.len() as u64;
                let n: u64 = if off <= data_len {
                    let avail = data_len - off;
                    if len <= avail {
                        len
                    } else {
                        avail
                    }
                } else {
                    0
                };
                let mut out: Vec<u8> = Vec::new();
                let mut i: usize = 0;
                let s = off as usize;
                let cnt = n as usize;
                while i < cnt
                    invariant
                        self.wf(),
                        *self == *old(self),
                        ino < self.files@.len(),
                        cnt != 0 ==> s + cnt <= self.files@[ino as int].data@.len(),
                        i <= cnt,
                        out@.len() == i,
                        forall|j: int|
                            0 <= j < i ==> out@[j] == self.files@[ino as int].data@[s + j],
                    decreases cnt - i,
                {
                    let b = self.files[ino].data[s + i];
                    out.push(b);
                    i = i + 1;
                }
                self.table.set(fd as usize, Some(Handle::Reg { ino, off: off + n }));
                Ok(out)
            },
            Some(Handle::PipeR { id }) => {
                let p_len = self.pipes[id].len() as u64;
                let n = if len <= p_len {
                    len
                } else {
                    p_len
                };
                let cnt = n as usize;
                let mut out: Vec<u8> = Vec::new();
                let mut i: usize = 0;
                while i < cnt
                    invariant
                        self.wf(),
                        *self == *old(self),
                        id < self.pipes@.len(),
                        cnt <= self.pipes@[id as int]@.len(),
                        i <= cnt,
                        out@.len() == i,
                        forall|j: int| 0 <= j < i ==> out@[j] == self.pipes@[id as int]@[j],
                    decreases cnt - i,
                {
                    let b = self.pipes[id][i];
                    out.push(b);
                    i = i + 1;
                }
                let mut rest: Vec<u8> = Vec::new();
                let p_total = self.pipes[id].len();
                let mut t: usize = cnt;
                while t < p_total
                    invariant
                        self.wf(),
                        *self == *old(self),
                        id < self.pipes@.len(),
                        p_total == self.pipes@[id as int]@.len(),
                        cnt <= t <= p_total,
                        rest@.len() == t - cnt,
                        forall|j: int|
                            0 <= j < t - cnt ==> rest@[j] == self.pipes@[id as int]@[cnt + j],
                    decreases p_total - t,
                {
                    let b = self.pipes[id][t];
                    rest.push(b);
                    t = t + 1;
                }
                proof {
                    assert(out@ =~= old(self).pipes@[id as int]@.take(cnt as int));
                    assert(rest@ =~= old(self).pipes@[id as int]@.skip(cnt as int));
                }
                self.pipes.set(id, rest);
                Ok(out)
            },
            _ => Err(Errno::EBADF),
        }
    }

    /// Write owned bytes through a descriptor. A regular file takes them
    /// at the descriptor's offset (zero-filling any seek gap) and advances
    /// it; the write end of a pipe appends them after everything already
    /// buffered. The model transfers either all bytes or, on error,
    /// none: `EFBIG` when a regular file would outgrow the supported
    /// size, `EBADF` for a non-writable descriptor.
    pub fn write_fd(&mut self, fd: FileDesc, data: &Vec<u8>) -> (r: Result<u64, Errno>)
        requires
            old(self).wf(),
        ensures
            final(self).wf(),
            final(self).cwd == old(self).cwd,
            r is Ok <==> (match old(self).handle(fd) {
                Some(Handle::Reg { ino, off }) => off + data@.len() <= FILE_MAX,
                Some(Handle::PipeW { id }) => true,
                _ => false,
            }),
            r matches Ok(n) ==> n == data@.len(),
            r is Err ==> *final(self) == *old(self),
            r matches Err(e) ==> e == (if old(self).handle(fd) matches Some(Handle::Reg { .. }) {
                Errno::EFBIG
            } else {
                Errno::EBADF
            }),
            (old(self).handle(fd) matches Some(Handle::Reg { ino, off }) ==> (r is Ok ==> {
                &&& final(self).pipes == old(self).pipes
                &&& final(self).files@.len() == old(self).files@.len()
                &&& final(self).files@[ino as int].path@ == old(self).files@[ino as int].path@
                &&& final(self).files@[ino as int].data@ == write_at(
                    old(self).files@[ino as int].data@,
                    off as int,
                    data@,
                )
                &&& (forall|j: int|
                    0 <= j < old(self).files@.len() && j != ino ==> final(self).files@[j] == old(
                        self,
                    ).files@[j])
                &&& final(self).handle(fd) == Some(
                    Handle::Reg { ino, off: (off + data@.len()) as u64 },
                )
                &&& (forall|g: u32| g != fd ==> final(self).handle(g) == old(self).handle(g))
            })),
            (old(self).handle(fd) matches Some(Handle::PipeW { id }) ==> {
                &&& final(self).table == old(self).table
                &&& final(self).files == old(self).files
                &&& final(self).pipes@.len() == old(self).pipes@.len()
                &&& final(self).pipes@[id as int]@ == old(self).pipes@[id as int]@ + data@
                &&& (forall|j: int|
                    0 <= j < old(self).pipes@.len() && j != id ==> final(self).pipes@[j] == old(
                        self,
                    ).pipes@[j])
            }),
    {
        match fd_open_at(&self.table, fd) {
            Some(Handle::Reg { ino, off }) => {
                if data.len() as u64 > FILE_MAX - off {
                    return Err(Errno::EFBIG);
                }
                let nd = write_at_exec(&self.files[ino].data, off, data);
                let path = copy_bytes(&self.files[ino].path);
                self.files.set(ino, FileNode { path, data: nd });
                self.table.set(fd as usize, Some(Handle::Reg { ino, off: off + data.len() as u64 }));
                Ok(data.len() as u64)
            },
            Some(Handle::PipeW { id }) => {
                let mut np = copy_bytes(&self.pipes[id]);
                let dn = data.len();
                let mut i: usize = 0;
                while i < dn
                    invariant
                        dn == data@.len(),
                        i <= dn,
                        id < old(self).pipes@.len(),
                        np@.len() == old(self).pipes@[id as int]@.len() + i,
                        np@ =~= old(self).pipes@[id as int]@ + data@.subrange(0, i as int),
                    decreases dn - i,
                {
                    np.push(data[i]);
                    proof {
                        assert(np@ =~= old(self).pipes@[id as int]@ + data@.subrange(0, i + 1));
                    }
                    i = i + 1;
                }
                proof {
                    assert(np@ =~= old(self).pipes@[id as int]@ + data@);
                }
                self.pipes.set(id, np);
                Ok(dn as u64)
            },
            _ => Err(Errno::EBADF),
        }
    }

    /// Move a regular descriptor's offset: absolute, relative to the
    /// current offset, or relative to the end of the file. A target before
    /// the start is `EINVAL`; one past the supported file size is
    /// `EOVERFLOW`; a pipe end cannot seek, `ESPIPE`.
    pub fn lseek(&mut self, fd: FileDesc, from: SeekFrom) -> (r: Result<u64, Errno>)
        requires
            old(self).wf(),
        ensures
            final(self).wf(),
            final(self).files == old(self).files,
            final(self).pipes == old(self).pipes,
            final(self).cwd == old(self).cwd,
            r is Err ==> *final(self) == *old(self),
            old(self).handle(fd) is None ==> r == Err::<u64, Errno>(Errno::EBADF),
            (old(self).handle(fd) matches Some(Handle::PipeR { .. }) || old(self).handle(fd)
                matches Some(Handle::PipeW { .. })) ==> r == Err::<u64, Errno>(Errno::ESPIPE),
            (old(self).handle(fd) matches Some(Handle::Reg { ino, off }) ==> {
                let data = old(self).files@[ino as int].data@;
                let t = seek_target(data.len() as int, off as int, from);
                &&& (t < 0 ==> r == Err::<u64, Errno>(Errno::EINVAL))
                &&& (t > FILE_MAX ==> r == Err::<u64, Errno>(Errno::EOVERFLOW))
                &&& (0 <= t <= FILE_MAX ==> {
                    &&& r == Ok::<u64, Errno>(t as u64)
                    &&& final(self).handle(fd) == Some(Handle::Reg { ino, off: t as u64 })
                    &&& (forall|g: u32| g != fd ==> final(self).handle(g) == old(self).handle(g))
                })
            }),
    {
        match fd_open_at(&self.table, fd) {
            Some(Handle::Reg { ino, off }) => {
                let size = self.files[ino].data.len() as u64;
                let target: u64 = match from {
                    SeekFrom::Start(s) => {
                        if s > FILE_MAX {
                            return Err(Errno::EOVERFLOW);
                        }
                        s
                    },
                    SeekFrom::Current(d) => {
                        match shifted(off, d) {
                            Ok(t) => t,
                            Err(e) => {
                                return Err(e);
                            },
                        }
                    },
                    SeekFrom::End(d) => {
                        match shifted(size, d) {
                            Ok(t) => t,
                            Err(e) => {
                                return Err(e);
                            },
                        }
                    },
                };
                self.table.set(fd as usize, Some(Handle::Reg { ino, off: target }));
                Ok(target)
            },
            Some(_) => Err(Errno::ESPIPE),
            None => Err(Errno::EBADF),
        }
    }
}

impl Fs {
    /// Truncate or zero-extend the file at `path` to length `len`.
    pub fn truncate_path(&mut self, path: &Vec<u8>, len: u64) -> (r: Result<(), Errno>)
        requires
            old(self).wf(),
        ensures
            final(self).wf(),
            final(self).table == old(self).table,
            final(self).pipes == old(self).pipes,
            final(self).cwd == old(self).cwd,
            r is Ok <==> old(self).has_path(path@) && len <= FILE_MAX,
            r is Err ==> *final(self) == *old(self),
            r matches Err(e) ==> e == (if old(self).has_path(path@) {
                Errno::EFBIG
            } else {
                Errno::ENOENT
            }),
            r is Ok ==> {
                &&& final(self).files@.len() == old(self).files@.len()
                &&& exists|i: int|
                    {
                        &&& 0 <= i < old(self).files@.len()
                        &&& (#[trigger] old(self).files@[i].path)@ == path@
                        &&& final(self).files@[i].path@ == path@
                        &&& final(self).files@[i].data@ == resized(
                            old(self).files@[i].data@,
                            len as int,
                        )
                        &&& (forall|j: int|
                            0 <= j < old(self).files@.len() && j != i ==> final(self).files@[j]
                                == old(self).files@[j])
                    }
            },
    {
        let found = self.find_file(path);
        match found {
            None => Err(Errno::ENOENT),
            Some(i) => {
                if len > FILE_MAX {
                    return Err(Errno::EFBIG);
                }
                let nd = resized_exec(&self.files[i].data, len);
                let p = copy_bytes(&self.files[i].path);
                self.files.set(i, FileNode { path: p, data: nd });
                Ok(())
            },
        }
    }

    /// Truncate or zero-extend the file a regular descriptor points at.
    /// The descriptor's offset does not move.
    pub fn ftruncate(&mut self, fd: FileDesc, len: u64) -> (r: Result<(), Errno>)
        requires
            old(self).wf(),
        ensures
            final(self).wf(),
            final(self).table == old(self).table,
            final(self).pipes == old(self).pipes,
            final(self).cwd == old(self).cwd,
            r is Ok <==> (old(self).handle(fd) matches Some(Handle::Reg { .. })) && len
                <= FILE_MAX,
            r is Err ==> *final(self) == *old(self),
            r matches Err(e) ==> e == (match old(self).handle(fd) {
                Some(Handle::Reg { .. }) => Errno::EFBIG,
                Some(_) => Errno::EINVAL,
                None => Errno::EBADF,
            }),
            (old(self).handle(fd) matches Some(Handle::Reg { ino, off }) ==> (r is Ok ==> {
                &&& final(self).files@.len() == old(self).files@.len()
                &&& final(self).files@[ino as int].path@ == old(self).files@[ino as int].path@
                &&& final(self).files@[ino as int].data@ == resized(
                    old(self).files@[ino as int].data@,
                    len as int,
                )
                &&& (forall|j: int|
                    0 <= j < old(self).files@.len() && j != ino ==> final(self).files@[j] == old(
                        self,
                    ).files@[j])
            })),
    {
        match fd_open_at(&self.table, fd) {
            Some(Handle::Reg { ino, off: _ }) => {
                if len > FILE_MAX {
                    return Err(Errno::EFBIG);
                }
                let nd = resized_exec(&self.files[ino].data, len);
                let p = copy_bytes(&self.files[ino].path);
                self.files.set(ino, FileNode { path: p, data: nd });
                Ok(())
            },
            Some(_) => Err(Errno::EINVAL),
            None => Err(Errno::EBADF),
        }
    }

    /// What stat reports for a path: the file's size and the regular kind.
    pub fn stat_path(&self, path: &Vec<u8>) -> (r: Result<Stat, Errno>)
        requires
            self.wf(),
        ensures
            r is Ok <==> self.has_path(path@),
            r matches Err(e) ==> e == Errno::ENOENT,
            r matches Ok(s) ==> exists|i: int|
                {
                    &&& 0 <= i < self.files@.len()
                    &&& (#[trigger] self.files@[i].path)@ == path@
                    &&& s == (Stat {
                        size: self.files@[i].data@.len() as u64,
                        kind: S_KIND_REG,
                    })
                },
    {
        match self.find_file(path) {
            None => Err(Errno::ENOENT),
            Some(i) => Ok(
                Stat { size: self.files[i].data.len() as u64, kind: S_KIND_REG },
            ),
        }
    }

    /// What stat reports for an open descriptor: size and kind of what it
    /// points at; a pipe end reports the bytes currently buffered.
    pub fn fstat(&self, fd: FileDesc) -> (r: Result<Stat, Errno>)
        requires
            self.wf(),
        ensures
            r is Ok <==> self.is_open(fd),
            r matches Err(e) ==> e == Errno::EBADF,
            r matches Ok(s) ==> s == (match self.handle(fd) {
                Some(Handle::Reg { ino, off }) => Stat {
                    size: self.files@[ino as int].data@.len() as u64,
                    kind: S_KIND_REG,
                },
                Some(Handle::PipeR { id }) => Stat {
                    size: self.pipes@[id as int]@.len() as u64,
                    kind: S_KIND_PIPE,
                },
                Some(Handle::PipeW { id }) => Stat {
                    size: self.pipes@[id as int]@.len() as u64,
                    kind: S_KIND_PIPE,
                },
                None => s,
            }),
    {
        match fd_open_at(&self.table, fd) {
            Some(Handle::Reg { ino, off: _ }) => Ok(
                Stat { size: self.files[ino].data.len() as u64, kind: S_KIND_REG },
            ),
            Some(Handle::PipeR { id }) => Ok(
                Stat { size: self.pipes[id].len() as u64, kind: S_KIND_PIPE },
            ),
            Some(Handle::PipeW { id }) => Ok(
                Stat { size: self.pipes[id].len() as u64, kind: S_KIND_PIPE },
            ),
            None => Err(Errno::EBADF),
        }
    }

    /// Directory entries of an open descriptor. The model stores no
    /// directories, so every open descriptor reports `ENOTDIR` and a free
    /// slot reports `EBADF`; the call never changes state.
    pub fn getdents(&self, fd: FileDesc) -> (r: Result<Vec<u8>, Errno>)
        requires
            self.wf(),
        ensures
            r is Err,
            r matches Err(e) ==> e == (if self.is_open(fd) {
                Errno::ENOTDIR
            } else {
                Errno::EBADF
            }),
    {
        if (fd_open_at(&self.table, fd)).is_some() {
            Err(Errno::ENOTDIR)
        } else {
            Err(Errno::EBADF)
        }
    }

    /// Flush a descriptor's data and metadata: a no-op for the in-memory
    /// model, owed success exactly on open descriptors.
    pub fn fsync(&self, fd: FileDesc) -> (r: Result<(), Errno>)
        requires
            self.wf(),
        ensures
            r is Ok <==> self.is_open(fd),
            r matches Err(e) ==> e == Errno::EBADF,
    {
        if (fd_open_at(&self.table, fd)).is_some() {
            Ok(())
        } else {
            Err(Errno::EBADF)
        }
    }

    /// Flush everything: a no-op for the in-memory model, never fails.
    pub fn sync(&self) {
    }


    /// Whether two descriptors can still be allocated, changing nothing.
    fn two_free_exists(&self) -> (r: bool)
        requires
            self.wf(),
        ensures
            r == self.two_free_fds(),
    {
        let n = self.table.len();
        if n + 2 <= FD_MAX as usize {
            return true;
        }
        let mut found: usize = 0;
        let mut first_idx: usize = 0;
        let mut i: usize = 0;
        while i < n
            invariant
                self.wf(),
                n == self.table@.len(),
                n + 2 > FD_MAX,
                i <= n,
                found <= 1,
                found == 0 ==> forall|j: int| 0 <= j < i ==> #[trigger] self.table@[j] is Some,
                found == 1 ==> first_idx < i && self.table@[first_idx as int] is None && (forall|
                    j: int,
                |
                    0 <= j < i && j != first_idx ==> #[trigger] self.table@[j] is Some),
            decreases n - i,
        {
            if self.table[i].is_none() {
                if found == 1 {
                    return true;
                }
                found = 1;
                first_idx = i;
            }
            i = i + 1;
        }
        if found == 1 && n < FD_MAX as usize {
            return true;
        }
        proof {
            assert(!self.two_free_fds()) by {
                if exists|a: int, b: int|
                    0 <= a < self.table@.len() && 0 <= b < self.table@.len() && a != b
                        && #[trigger] self.table@[a] is None && #[trigger] self.table@[b] is None {
                    let (a, b) = choose|a: int, b: int|
                        0 <= a < self.table@.len() && 0 <= b < self.table@.len() && a != b
                            && #[trigger] self.table@[a] is None && #[trigger] self.table@[b]
                            is None;
                    if found == 0 {
                        assert(self.table@[a] is Some);
                    } else {
                        let c = if a != first_idx {
                            a
                        } else {
                            b
                        };
                        assert(self.table@[c] is Some);
                    }
                    assert(false);
                }
            }
        }
        false
    }

    /// Create a pipe: a fresh empty buffer with its read end and write end
    /// on the two lowest free descriptors, always distinct. Fails with no
    /// observable effect when two descriptors cannot be allocated.
    pub fn pipe2(&mut self, _flags: u32) -> (r: Result<(FileDesc, FileDesc), Errno>)
        requires
            old(self).wf(),
        ensures
            final(self).wf(),
            final(self).files == old(self).files,
            final(self).cwd == old(self).cwd,
            r is Ok <==> old(self).two_free_fds(),
            r matches Err(e) ==> e == Errno::ENFILE,
            r is Err ==> *final(self) == *old(self),
            r matches Ok(v) ==> {
                &&& v.0 != v.1
                &&& old(self).handle(v.0) is None
                &&& old(self).handle(v.1) is None
                &&& final(self).pipes@.len() == old(self).pipes@.len() + 1
                &&& (forall|j: int|
                    0 <= j < old(self).pipes@.len() ==> final(self).pipes@[j] == old(
                        self,
                    ).pipes@[j])
                &&& final(self).pipes@.last()@ == Seq::<u8>::empty()
                &&& final(self).handle(v.0) == Some(
                    Handle::PipeR { id: old(self).pipes@.len() as usize },
                )
                &&& final(self).handle(v.1) == Some(
                    Handle::PipeW { id: old(self).pipes@.len() as usize },
                )
                &&& (forall|g: u32|
                    g != v.0 && g != v.1 ==> final(self).handle(g) == old(self).handle(g))
            },
    {
        if !self.two_free_exists() {
            return Err(Errno::ENFILE);
        }
        let id = self.pipes.len();
        self.pipes.push(Vec::new());
        let rfd = match alloc_fd(&mut self.table, Handle::PipeR { id }) {
            Ok(fd) => fd,
            Err(_) => {
                proof {
                    let t0 = old(self).table@;
                    assert(!old(self).two_free_fds()) by {
                        if exists|i: int, j: int|
                            0 <= i < t0.len() && 0 <= j < t0.len() && i != j && #[trigger] t0[i]
                                is None && #[trigger] t0[j] is None {
                            let (i, j) = choose|i: int, j: int|
                                0 <= i < t0.len() && 0 <= j < t0.len() && i != j
                                    && #[trigger] t0[i] is None && #[trigger] t0[j] is None;
                            assert(t0[i] is None);
                            assert(false);
                        }
                    }
                    assert(false);
                }
                return Err(Errno::ENFILE);
            },
        };
        let wfd = match alloc_fd(&mut self.table, Handle::PipeW { id }) {
            Ok(fd) => fd,
            Err(_) => {
                proof {
                    let t0 = old(self).table@;
                    let t1 = self.table@;
                    assert(!old(self).two_free_fds()) by {
                        if rfd < t0.len() {
                            assert(t0.len() >= FD_MAX);
                            if exists|i: int, j: int|
                                0 <= i < t0.len() && 0 <= j < t0.len() && i != j && #[trigger] t0[i]
                                    is None && #[trigger] t0[j] is None {
                                let (i, j) = choose|i: int, j: int|
                                    0 <= i < t0.len() && 0 <= j < t0.len() && i != j
                                        && #[trigger] t0[i] is None && #[trigger] t0[j] is None;
                                let k = if i != rfd {
                                    i
                                } else {
                                    j
                                };
                                assert(t1[k] is None);
                                assert(false);
                            }
                        } else {
                            assert(forall|g: int| 0 <= g < t0.len() ==> #[trigger] t0[g] is Some);
                            assert(t1.len() == t0.len() + 1);
                            assert(t1.len() >= FD_MAX);
                        }
                    }
                    assert(false);
                }
                return Err(Errno::ENFILE);
            },
        };
        Ok((rfd, wfd))
    }
}

/// File contents after truncating or zero-extending to length `len`.
fn resized_exec(base: &Vec<u8>, len: u64) -> (r: Vec<u8>)
    requires
        len <= FILE_MAX,
    ensures
        r@ == resized(base@, len as int),
{
    let n = len as usize;
    let blen = base.len();
    let mut out: Vec<u8> = Vec::new();
    let mut i: usize = 0;
    while i < n
        invariant
            n <= FILE_MAX,
            blen == base@.len(),
            i <= n,
            out@.len() == i,
            forall|j: int|
                0 <= j < i ==> out@[j] == (if j < base@.len() {
                    base@[j]
                } else {
                    0u8
                }),
        decreases n - i,
    {
        if i < blen {
            out.push(base[i]);
        } else {
            out.push(0u8);
        }
        i = i + 1;
    }
    proof {
        assert(out@ =~= resized(base@, len as int));
    }
    out
}

/// `base + d` as a seek target: `EINVAL` below zero, `EOVERFLOW` past the
/// supported file size.
fn shifted(base: u64, d: i64) -> (r: Result<u64, Errno>)
    requires
        base <= FILE_MAX,
    ensures
        base + d < 0 ==> r == Err::<u64, Errno>(Errno::EINVAL),
        base + d > FILE_MAX ==> r == Err::<u64, Errno>(Errno::EOVERFLOW),
        0 <= base + d <= FILE_MAX ==> r == Ok::<u64, Errno>((base + d) as u64),
{
    if d >= 0 {
        let t = base + d as u64;
        if t > FILE_MAX {
            Err(Errno::EOVERFLOW)
        } else {
            Ok(t)
        }
    } else {
        let mag = (-(d as i128)) as u64;
        if mag > base {
            Err(Errno::EINVAL)
        } else {
            Ok(base - mag)
        }
    }
}

/// File contents after writing `d` at offset `off` of `base`.
fn write_at_exec(base: &Vec<u8>, off: u64, d: &Vec<u8>) -> (r: Vec<u8>)
    requires
        off <= FILE_MAX,
        base@.len() <= FILE_MAX,
        off + d@.len() <= FILE_MAX,
    ensures
        r@ == write_at(base@, off as int, d@),
{
    let o = off as usize;
    let blen = base.len();
    let dlen = d.len();
    let head = if o <= blen {
        o
    } else {
        blen
    };
    let mut out: Vec<u8> = Vec::new();
    let mut i: usize = 0;
    while i < head
        invariant
            head <= blen,
            blen == base@.len(),
            i <= head,
            out@.len() == i,
            forall|j: int| 0 <= j < i ==> out@[j] == base@[j],
        decreases head - i,
    {
        out.push(base[i]);
        i = i + 1;
    }
    while i < o
        invariant
            head <= i <= o,
            out@.len() == i,
            forall|j: int| 0 <= j < head ==> out@[j] == base@[j],
            forall|j: int| head <= j < i ==> out@[j] == 0u8,
        decreases o - i,
    {
        out.push(0u8);
        i = i + 1;
    }
    let mut k: usize = 0;
    while k < dlen
        invariant
            dlen == d@.len(),
            k <= dlen,
            o <= out@.len(),
            out@.len() == o + k,
            forall|j: int| 0 <= j < head ==> out@[j] == base@[j],
            forall|j: int| head <= j < o ==> out@[j] == 0u8,
            head <= o,
            forall|j: int| 0 <= j < k ==> out@[o + j] == d@[j],
        decreases dlen - k,
    {
        out.push(d[k]);
        k = k + 1;
    }
    let mut t: usize = o + dlen;
    while t < blen
        invariant
            blen == base@.len(),
            dlen == d@.len(),
            o + dlen <= t,
            t <= blen || t == o + dlen,
            out@.len() == t,
            forall|j: int| 0 <= j < head ==> out@[j] == base@[j],
            forall|j: int| head <= j < o ==> out@[j] == 0u8,
            head <= o,
            head == (if o <= blen {
                o as int
            } else {
                blen as int
            }),
            forall|j: int| 0 <= j < dlen ==> out@[o + j] == d@[j],
            forall|j: int| o + dlen <= j < t ==> out@[j] == base@[j],
        decreases blen - t,
    {
        out.push(base[t]);
        t = t + 1;
    }
    proof {
        assert(out@ =~= write_at(base@, off as int, d@));
    }
    out
}

/// The handle at `fd`, or `None` when the slot is free or out of range.
fn fd_open_at(table: &Vec<Option<Handle>>, fd: u32) -> (r: Option<Handle>)
    ensures
        r == (if fd < table@.len() {
            table@[fd as int]
        } else {
            None
        }),
{
    if (fd as usize) < table.len() {
        table[fd as usize]
    } else {
        None
    }
}

/// Put `h` into the lowest free slot of the descriptor table, growing it
/// up to its fixed capacity.
fn alloc_fd(table: &mut Vec<Option<Handle>>, h: Handle) -> (r: Result<u32, Errno>)
    requires
        old(table)@.len() <= FD_MAX,
    ensures
        final(table)@.len() <= FD_MAX,
        r is Ok <==> (exists|g: int|
            0 <= g < old(table)@.len() && #[trigger] old(table)@[g] is None) || old(
            table,
        )@.len() < FD_MAX,
        r matches Ok(fd) ==> {
            &&& fd < final(table)@.len()
            &&& (fd < old(table)@.len() ==> old(table)@[fd as int] is None && final(table)@ == old(
                table,
            )@.update(fd as int, Some(h)))
            &&& (fd >= old(table)@.len() ==> fd == old(table)@.len() && final(table)@ == old(
                table,
            )@.push(Some(h)))
            &&& (forall|g: int| 0 <= g < fd ==> #[trigger] old(table)@[g] is Some)
        },
        r is Err ==> *final(table) == *old(table),
        r matches Err(e) ==> e == Errno::ENFILE,
{
    let n = table.len();
    let mut i: usize = 0;
    while i < n
        invariant
            *table == *old(table),
            n == table@.len(),
            n <= FD_MAX,
            i <= n,
            forall|j: int| 0 <= j < i ==> #[trigger] table@[j] is Some,
        decreases n - i,
    {
        if table[i].is_none() {
            table.set(i, Some(h));
            return Ok(i as u32);
        }
        i = i + 1;
    }
    if n < FD_MAX as usize {
        table.push(Some(h));
        return Ok(n as u32);
    }
    Err(Errno::ENFILE)
}

/// Owned copy of a byte vector.
pub fn copy_bytes(v: &Vec<u8>) -> (r: Vec<u8>)
    ensures
        r@ == v@,
{
    let mut out: Vec<u8> = Vec::new();
    let n = v.len();
    let mut i: usize = 0;
    while i < n
        invariant
            n == v@.len(),
            i <= n,
            out@ == v@.subrange(0, i as int),
        decreases n - i,
    {
        let b = v[i];
        out.push(b);
        proof {
            assert(out@ =~= v@.subrange(0, i + 1));
        }
        i = i + 1;
    }
    proof {
        assert(out@ =~= v@);
    }
    out
}

/// Whether two byte vectors hold the same bytes.
pub fn bytes_eq(a: &Vec<u8>, b: &Vec<u8>) -> (r: bool)
    ensures
        r == (a@ == b@),
{
    if a.len() != b.len() {
        proof {
            assert(a@ != b@);
        }
        return false;
    }
    let n = a.len();
    let mut i: usize = 0;
    while i < n
        invariant
            n == a@.len(),
            n == b@.len(),
            i <= n,
            forall|j: int| 0 <= j < i ==> a@[j] == b@[j],
        decreases n - i,
    {
        if a[i] != b[i] {
            proof {
                assert(a@ != b@);
            }
            return false;
        }
        i = i + 1;
    }
    proof {
        assert(a@ =~= b@);
    }
    true
}

/// Every spawn file action can be applied to a child inheriting this
/// descriptor table: close and duplicate name open descriptors and legal
/// slots; an open-kind action is never applicable here.
pub open spec fn actions_ok(fs: Fs, acts: Seq<crate::process::FileAction>) -> bool {
    forall|k: int|
        0 <= k < acts.len() ==> match #[trigger] acts[k] {
            crate::process::FileAction::Close(fd) => fs.handle(fd) is Some,
            crate::process::FileAction::Dup2(src, dst) => fs.handle(src) is Some && dst < FD_MAX,
            crate::process::FileAction::Open { .. } => false,
        }
}

impl Fs {
    /// Check a materialized action list against this table before any
    /// child is created: all actions pass, or nothing happens. An
    /// open-kind action is `EINVAL`; a bad descriptor is `EBADF`.
    pub fn check_actions(&self, acts: &Vec<crate::process::FileAction>) -> (r: Result<(), Errno>)
        requires
            self.wf(),
        ensures
            r is Ok <==> actions_ok(*self, acts@),
            r is Err ==> !actions_ok(*self, acts@),
            r matches Err(e) ==> e == Errno::EBADF || e == Errno::EINVAL,
            (forall|k: int|
                0 <= k < acts@.len() ==> !(#[trigger] acts@[k] matches crate::process::FileAction::Open { .. })) ==> (
            r matches Err(e) ==> e == Errno::EBADF),
    {
        let n = acts.len();
        let mut i: usize = 0;
        while i < n
            invariant
                self.wf(),
                n == acts@.len(),
                i <= n,
                forall|k: int|
                    0 <= k < i ==> match #[trigger] acts@[k] {
                        crate::process::FileAction::Close(fd) => self.handle(fd) is Some,
                        crate::process::FileAction::Dup2(src, dst) => self.handle(src) is Some
                            && dst < FD_MAX,
                        crate::process::FileAction::Open { .. } => false,
                    },
            decreases n - i,
        {
            match &acts[i] {
                crate::process::FileAction::Close(fd) => {
                    if (fd_open_at(&self.table, *fd)).is_none() {
                        return Err(Errno::EBADF);
                    }
                },
                crate::process::FileAction::Dup2(src, dst) => {
                    if (fd_open_at(&self.table, *src)).is_none() || *dst >= FD_MAX {
                        return Err(Errno::EBADF);
                    }
                },
                crate::process::FileAction::Open { .. } => {
                    return Err(Errno::EINVAL);
                },
            }
            i = i + 1;
        }
        Ok(())
    }
}

/// Pipe delivery is first-in first-out: after bytes `w` are written while
/// `q` is already buffered, a read of `n` bytes yields every byte of `q`
/// before any byte of `w`, each run in its original order. This is the
/// law behind the write end's append and the read end's take-from-front.
pub proof fn lemma_pipe_fifo(q: Seq<u8>, w: Seq<u8>, n: int)
    requires
        0 <= n <= q.len() + w.len(),
    ensures
        n <= q.len() ==> (q + w).take(n) == q.take(n),
        n > q.len() ==> (q + w).take(n) == q + w.take(n - q.len()),
{
    if n <= q.len() {
        assert((q + w).take(n) =~= q.take(n));
    } else {
        assert((q + w).take(n) =~= q + w.take(n - q.len()));
    }
}

} // verus!
