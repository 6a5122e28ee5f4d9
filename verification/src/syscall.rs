//! The syscall entry layer: the dispatch table, the per-syscall argument
//! reinterpretation, the handlers that validate and materialize caller
//! data before driving the collaborators, and the translation of every
//! outcome into the single-word return convention.

use vstd::prelude::*;

use crate::errno::{as_retval, errno_num, retval_of, Errno};
use crate::fs::{
    actions_ok, copy_bytes, seek_target, write_at, Handle, SeekFrom, Stat, FD_MAX, FILE_MAX,
    O_CREAT, PATH_MAX,
};
use crate::kernel::Kernel;
use crate::materialize::{
    actions_from, clone_cstring_safely, clone_cstrings_safely, clone_file_actions_safely,
    cstring_at, cstrings_from, gather, gathered, iovec_at, iovec_t, iovecs_ok,
    lemma_gathered_len, materialize_iovecs, scatter, scattered, total_len, total_len_exec,
    FDOP_LIST_MAX, IOV_MAX,
};
use crate::process::{ChildProcessFilter, FileAction, Proc, PID_MAX};
use crate::umem::{splice, u32_le, u64_le, UserMem};

verus! {

pub const SYS_READ: u32 = 0;

pub const SYS_WRITE: u32 = 1;

pub const SYS_OPEN: u32 = 2;

pub const SYS_CLOSE: u32 = 3;

pub const SYS_STAT: u32 = 4;

pub const SYS_FSTAT: u32 = 5;

pub const SYS_LSTAT: u32 = 6;

pub const SYS_LSEEK: u32 = 8;

pub const SYS_MMAP: u32 = 9;

pub const SYS_MUNMAP: u32 = 11;

pub const SYS_BRK: u32 = 12;

pub const SYS_READV: u32 = 19;

pub const SYS_WRITEV: u32 = 20;

pub const SYS_PIPE: u32 = 22;

pub const SYS_MREMAP: u32 = 25;

pub const SYS_DUP: u32 = 32;

pub const SYS_DUP2: u32 = 33;

pub const SYS_GETPID: u32 = 39;

pub const SYS_EXIT: u32 = 60;

pub const SYS_WAIT4: u32 = 61;

pub const SYS_FSYNC: u32 = 74;

pub const SYS_FDATASYNC: u32 = 75;

pub const SYS_TRUNCATE: u32 = 76;

pub const SYS_FTRUNCATE: u32 = 77;

pub const SYS_GETCWD: u32 = 79;

pub const SYS_GETTIMEOFDAY: u32 = 96;

pub const SYS_GETPPID: u32 = 110;

pub const SYS_SYNC: u32 = 162;

pub const SYS_GETDENTS64: u32 = 217;

pub const SYS_DUP3: u32 = 292;

pub const SYS_PIPE2: u32 = 293;

pub const SYS_SPAWN: u32 = 360;

/// What one dispatch produces: a return word for the caller, or the end
/// of the calling execution context. Exit has no error channel and never
/// returns through the word convention; the surrounding execution loop
/// interprets `Terminate` by tearing the context down.
#[derive(Clone, Copy, PartialEq, Eq, Structural, Debug)]
pub enum Control {
    Return(i64),
    Terminate(i32),
}

/// The syscall ids this build maps to a handler.
pub open spec fn supported(num: u32) -> bool {
    ||| num == SYS_READ
    ||| num == SYS_WRITE
    ||| num == SYS_OPEN
    ||| num == SYS_CLOSE
    ||| num == SYS_STAT
    ||| num == SYS_FSTAT
    ||| num == SYS_LSTAT
    ||| num == SYS_LSEEK
    ||| num == SYS_MMAP
    ||| num == SYS_MUNMAP
    ||| num == SYS_BRK
    ||| num == SYS_READV
    ||| num == SYS_WRITEV
    ||| num == SYS_PIPE
    ||| num == SYS_MREMAP
    ||| num == SYS_DUP
    ||| num == SYS_DUP2
    ||| num == SYS_GETPID
    ||| num == SYS_EXIT
    ||| num == SYS_WAIT4
    ||| num == SYS_FSYNC
    ||| num == SYS_FDATASYNC
    ||| num == SYS_TRUNCATE
    ||| num == SYS_FTRUNCATE
    ||| num == SYS_GETCWD
    ||| num == SYS_GETTIMEOFDAY
    ||| num == SYS_GETPPID
    ||| num == SYS_SYNC
    ||| num == SYS_GETDENTS64
    ||| num == SYS_DUP3
    ||| num == SYS_PIPE2
    ||| num == SYS_SPAWN
}

/// The descriptor array at `ptr`, as caller memory holds it.
pub open spec fn iovec_seq(m: UserMem, ptr: u64, count: int) -> Seq<iovec_t> {
    Seq::new(count as nat, |k: int| iovec_at(m, ptr, k))
}

/// The bytes a read of `want` bytes through `fd` yields: a regular file
/// gives the bytes at the descriptor's offset, the read end of a pipe
/// gives the oldest buffered bytes, first in first out.
pub open spec fn read_data_of(fs: crate::fs::Fs, fd: u32, want: int) -> Seq<u8> {
    match fs.handle(fd) {
        Some(Handle::Reg { ino, off }) => {
            let data = fs.files@[ino as int].data@;
            if off <= data.len() {
                let n = if off + want <= data.len() {
                    want
                } else {
                    data.len() - off
                };
                data.subrange(off as int, off + n)
            } else {
                Seq::empty()
            }
        },
        Some(Handle::PipeR { id }) => {
            let p = fs.pipes@[id as int]@;
            p.take(
                if want <= p.len() {
                    want
                } else {
                    p.len() as int
                },
            )
        },
        _ => Seq::empty(),
    }
}

/// Everything `do_open` promises of its outcome and the new state.
pub open spec fn open_post(k0: Kernel, k1: Kernel, m: UserMem, path_ptr: u64, flags: u32, r: Result<i64, Errno>) -> bool {
    &&& (k1.wf())
    &&& (k1.procs == k0.procs)
    &&& (k1.vm == k0.vm)
    &&& (k1.clock == k0.clock)
    &&& (k1.fs.pipes == k0.fs.pipes)
    &&& (k1.fs.cwd == k0.fs.cwd)
    &&& (r is Err ==> k1 == k0)
    &&& ((cstring_at(m, path_ptr) matches Err(e) ==> r == Err::<i64, Errno>(e)))
    &&& ((cstring_at(m, path_ptr) matches Ok(p) ==> {
            &&& (r is Ok <==> p.len() > 0 && (k0.fs.has_path(p) || flags & O_CREAT != 0) && k0.fs.free_fd())
            &&& (r matches Ok(fd) ==> {
                &&& 0 <= fd < FD_MAX
                &&& k0.fs.handle(fd as u32) is None
                &&& (forall|g: u32|
                    g != fd ==> k1.fs.handle(g) == k0.fs.handle(g))
                &&& k1.fs.handle(fd as u32) matches Some(Handle::Reg { .. })
                &&& (k1.fs.handle(fd as u32) matches Some(Handle::Reg { ino, off }) ==> off
                    == 0 && k1.fs.files@[ino as int].path@ == p)
            })
            &&& (r matches Err(e) ==> (if p.len() == 0 || (!k0.fs.has_path(p) && flags
                & O_CREAT == 0) {
                e == Errno::ENOENT
            } else {
                e == Errno::ENFILE
            }))
        }))
}

/// Open a materialized path.
pub fn do_open(k: &mut Kernel, m: &UserMem, path_ptr: u64, flags: u32, mode: u32) -> (r: Result<
    i64,
    Errno,
>)
    requires
        old(k).wf(),
        m.wf(),
    ensures
        open_post(*old(k), *final(k), *m, path_ptr, flags, r),
{
    let path = clone_cstring_safely(m, path_ptr)?;
    let fd = open_materialized(k, &path, flags, mode)?;
    Ok(fd as i64)
}

/// The filesystem call of `do_open`, separated so the borrow of the
/// materialized path ends before the return value is built.
fn open_materialized(k: &mut Kernel, path: &Vec<u8>, flags: u32, mode: u32) -> (r: Result<u32, Errno>)
    requires
        old(k).wf(),
        path@.len() <= PATH_MAX,
    ensures
        final(k).wf(),
        final(k).procs == old(k).procs,
        final(k).vm == old(k).vm,
        final(k).clock == old(k).clock,
        final(k).fs.pipes == old(k).fs.pipes,
        final(k).fs.cwd == old(k).fs.cwd,
        r is Err ==> *final(k) == *old(k),
        r is Ok <==> path@.len() > 0 && (old(k).fs.has_path(path@) || flags & O_CREAT != 0) && old(
            k,
        ).fs.free_fd(),
        r matches Ok(fd) ==> {
            &&& fd < FD_MAX
            &&& old(k).fs.handle(fd) is None
            &&& (forall|g: u32| g != fd ==> final(k).fs.handle(g) == old(k).fs.handle(g))
            &&& final(k).fs.handle(fd) matches Some(Handle::Reg { .. })
            &&& (final(k).fs.handle(fd) matches Some(Handle::Reg { ino, off }) ==> off == 0
                && final(k).fs.files@[ino as int].path@ == path@)
        },
        r matches Err(e) ==> (if path@.len() == 0 || (!old(k).fs.has_path(path@) && flags & O_CREAT
            == 0) {
            e == Errno::ENOENT
        } else {
            e == Errno::ENFILE
        }),
{
    let fd = k.fs.open(path, flags, mode)?;
    let n_files = k.fs.files.len();
    proof {
        assert(fd < FD_MAX);
        assert(k.fs.files@.len() == n_files);
    }
    Ok(fd)
}

/// Everything `do_close` promises of its outcome and the new state.
pub open spec fn close_post(k0: Kernel, k1: Kernel, fd: u32, r: Result<i64, Errno>) -> bool {
    &&& (k1.wf())
    &&& (k1.procs == k0.procs)
    &&& (k1.vm == k0.vm)
    &&& (k1.clock == k0.clock)
    &&& (k1.fs.files == k0.fs.files)
    &&& (k1.fs.pipes == k0.fs.pipes)
    &&& (k1.fs.cwd == k0.fs.cwd)
    &&& (r is Ok <==> k0.fs.is_open(fd))
    &&& (r is Ok ==> r == Ok::<i64, Errno>(0) && k1.fs.handle(fd) is None && (forall|g: u32|
            g != fd ==> k1.fs.handle(g) == k0.fs.handle(g)))
    &&& (r is Err ==> k1 == k0)
    &&& (r matches Err(e) ==> e == Errno::EBADF)
}

/// Close a descriptor.
pub fn do_close(k: &mut Kernel, fd: u32) -> (r: Result<i64, Errno>)
    requires
        old(k).wf(),
    ensures
        close_post(*old(k), *final(k), fd, r),
{
    k.fs.close(fd)?;
    Ok(0)
}

/// Everything `do_read` promises of its outcome and the new state.
pub open spec fn read_post(k0: Kernel, k1: Kernel, m0: UserMem, m1: UserMem, fd: u32, buf: u64, size: u64, r: Result<i64, Errno>) -> bool {
    &&& (k1.wf())
    &&& (m1.wf())
    &&& (m1.size() == m0.size())
    &&& (m1.same_perms(m0))
    &&& (k1.procs == k0.procs)
    &&& (k1.vm == k0.vm)
    &&& (k1.clock == k0.clock)
    &&& (k1.fs.files == k0.fs.files)
    &&& (k1.fs.cwd == k0.fs.cwd)
    &&& (r is Err ==> k1 == k0 && m1 == m0)
    &&& (!m0.writable(buf, size) ==> r == Err::<i64, Errno>(Errno::EFAULT))
    &&& (m0.writable(buf, size) ==> {
            &&& (r is Ok <==> (k0.fs.handle(fd) matches Some(Handle::Reg { .. }) || k0.fs.handle(fd) matches Some(Handle::PipeR { .. })))
            &&& (r matches Err(e) ==> e == Errno::EBADF)
            &&& (r matches Ok(n) ==> {
                let data = read_data_of(k0.fs, fd, size as int);
                &&& n == data.len() <= size
                &&& (data.len() == 0 ==> m1.mem() == m0.mem())
                &&& (data.len() > 0 ==> m1.mem() == splice(m0.mem(), buf as int, data))
            })
        })
}

/// Read through a descriptor into a validated caller buffer.
pub fn do_read(k: &mut Kernel, m: &mut UserMem, fd: u32, buf: u64, size: u64) -> (r: Result<
    i64,
    Errno,
>)
    requires
        old(k).wf(),
        old(m).wf(),
    ensures
        read_post(*old(k), *final(k), *old(m), *final(m), fd, buf, size, r),
{
    if !m.check_write(buf, size) {
        return Err(Errno::EFAULT);
    }
    let data = k.fs.read_fd(fd, size)?;
    proof {
        assert(data@ =~= read_data_of(old(k).fs, fd, size as int));
        assert(old(m).writable(buf, data@.len() as u64)) by {
            assert(forall|t: int| buf <= t < buf + size ==> old(m).write_perm()[t]);
        }
    }
    match m.write_range(buf, &data) {
        Ok(_) => {},
        Err(_) => {
            proof {
                assert(false);
            }
        },
    }
    Ok(data.len() as i64)
}

/// Everything `do_write` promises of its outcome and the new state.
pub open spec fn write_post(k0: Kernel, k1: Kernel, m: UserMem, fd: u32, buf: u64, size: u64, r: Result<i64, Errno>) -> bool {
    &&& (k1.wf())
    &&& (k1.procs == k0.procs)
    &&& (k1.vm == k0.vm)
    &&& (k1.clock == k0.clock)
    &&& (k1.fs.cwd == k0.fs.cwd)
    &&& (r is Err ==> k1 == k0)
    &&& (!m.readable(buf, size) ==> r == Err::<i64, Errno>(Errno::EFAULT))
    &&& (m.readable(buf, size) ==> {
            let data = if size == 0 {
                Seq::<u8>::empty()
            } else {
                m.mem().subrange(buf as int, buf as int + size as int)
            };
            &&& (r is Ok <==> (match k0.fs.handle(fd) {
                Some(Handle::Reg { ino, off }) => off + size <= FILE_MAX,
                Some(Handle::PipeW { .. }) => true,
                _ => false,
            }))
            &&& (r matches Ok(n) ==> n == size)
            &&& (k0.fs.handle(fd) matches Some(Handle::Reg { ino, off }) ==> (r is Ok ==> {
                &&& k1.fs.files@[ino as int].data@ == write_at(
                    k0.fs.files@[ino as int].data@,
                    off as int,
                    data,
                )
                &&& k1.fs.handle(fd) == Some(Handle::Reg { ino, off: (off + size) as u64 })
            }))
            &&& (k0.fs.handle(fd) matches Some(Handle::PipeW { id }) ==> {
                &&& k1.fs.pipes@[id as int]@ == k0.fs.pipes@[id as int]@ + data
                &&& k1.fs.table == k0.fs.table
            })
            &&& (r matches Err(e) ==> e == (if k0.fs.handle(fd) matches Some(
                Handle::Reg { .. },
            ) {
                Errno::EFBIG
            } else {
                Errno::EBADF
            }))
        })
}

/// Write a validated caller buffer through a descriptor.
#[verifier::rlimit(60)]
pub fn do_write(k: &mut Kernel, m: &UserMem, fd: u32, buf: u64, size: u64) -> (r: Result<
    i64,
    Errno,
>)
    requires
        old(k).wf(),
        m.wf(),
    ensures
        write_post(*old(k), *final(k), *m, fd, buf, size, r),
{
    let data = m.read_range(buf, size)?;
    proof {
        if size == 0 {
            assert(data@ =~= Seq::<u8>::empty());
        } else {
            assert(data@ == m.mem().subrange(buf as int, buf as int + size as int));
        }
    }
    let n = k.fs.write_fd(fd, &data)?;
    Ok(n as i64)
}

/// Everything `do_writev` promises of its outcome and the new state.
pub open spec fn writev_post(k0: Kernel, k1: Kernel, m: UserMem, fd: u32, iov_ptr: u64, count: i32, r: Result<i64, Errno>) -> bool {
    &&& (k1.wf())
    &&& (k1.procs == k0.procs)
    &&& (k1.vm == k0.vm)
    &&& (k1.clock == k0.clock)
    &&& (k1.fs.cwd == k0.fs.cwd)
    &&& (r is Err ==> k1 == k0)
    &&& (count < 0 || count > IOV_MAX ==> r == Err::<i64, Errno>(Errno::EINVAL))
    &&& (0 <= count <= IOV_MAX && !iovecs_ok(m, iov_ptr, count as int, false) ==> r == Err::<
            i64,
            Errno,
        >(Errno::EFAULT))
    &&& (0 <= count <= IOV_MAX && iovecs_ok(m, iov_ptr, count as int, false) ==> {
            let data = gathered(m.mem(), iovec_seq(m, iov_ptr, count as int));
            &&& (r is Ok <==> (match k0.fs.handle(fd) {
                Some(Handle::Reg { ino, off }) => off + data.len() <= FILE_MAX,
                Some(Handle::PipeW { .. }) => true,
                _ => false,
            }))
            &&& (r matches Ok(n) ==> n == data.len() && n <= total_len(
                iovec_seq(m, iov_ptr, count as int),
            ))
            &&& (k0.fs.handle(fd) matches Some(Handle::Reg { ino, off }) ==> (r is Ok ==> {
                &&& k1.fs.files@[ino as int].data@ == write_at(
                    k0.fs.files@[ino as int].data@,
                    off as int,
                    data,
                )
                &&& k1.fs.handle(fd) == Some(
                    Handle::Reg { ino, off: (off + data.len()) as u64 },
                )
            }))
            &&& (k0.fs.handle(fd) matches Some(Handle::PipeW { id }) ==> {
                &&& k1.fs.pipes@[id as int]@ == k0.fs.pipes@[id as int]@ + data
                &&& k1.fs.table == k0.fs.table
            })
            &&& (r matches Err(e) ==> e == (if k0.fs.handle(fd) matches Some(
                Handle::Reg { .. },
            ) {
                Errno::EFBIG
            } else {
                Errno::EBADF
            }))
        })
}

/// Gather-write: transfer the fragments of a validated descriptor array
/// through a descriptor, in array order. The total transferred is the sum
/// the filesystem reports and never exceeds the sum of requested lengths.
pub fn do_writev(k: &mut Kernel, m: &UserMem, fd: u32, iov_ptr: u64, count: i32) -> (r: Result<
    i64,
    Errno,
>)
    requires
        old(k).wf(),
        m.wf(),
    ensures
        writev_post(*old(k), *final(k), *m, fd, iov_ptr, count, r),
{
    let iovs = materialize_iovecs(m, iov_ptr, count, false)?;
    proof {
        assert(iovs@ =~= iovec_seq(*m, iov_ptr, count as int));
        assert forall|kk: int| 0 <= kk < iovs@.len() implies m.readable(
            (#[trigger] iovs@[kk]).base,
            iovs@[kk].len,
        ) by {
            assert(iovs@[kk] == iovec_at(*m, iov_ptr, kk));
        }
        lemma_gathered_len(*m, iovs@);
    }
    let bound = total_len_exec(&iovs);
    let data = gather(m, &iovs);
    proof {
        assert(data@.len() == bound);
    }
    let n = k.fs.write_fd(fd, &data)?;
    Ok(n as i64)
}

/// Everything `do_readv` promises of its outcome and the new state.
pub open spec fn readv_post(k0: Kernel, k1: Kernel, m0: UserMem, m1: UserMem, fd: u32, iov_ptr: u64, count: i32, r: Result<i64, Errno>) -> bool {
    &&& (k1.wf())
    &&& (m1.wf())
    &&& (m1.size() == m0.size())
    &&& (m1.same_perms(m0))
    &&& (k1.procs == k0.procs)
    &&& (k1.vm == k0.vm)
    &&& (k1.clock == k0.clock)
    &&& (k1.fs.files == k0.fs.files)
    &&& (k1.fs.cwd == k0.fs.cwd)
    &&& (r is Err ==> k1 == k0 && m1 == m0)
    &&& (count < 0 || count > IOV_MAX ==> r == Err::<i64, Errno>(Errno::EINVAL))
    &&& (0 <= count <= IOV_MAX && !iovecs_ok(m0, iov_ptr, count as int, true) ==> r == Err::<
            i64,
            Errno,
        >(Errno::EFAULT))
    &&& (0 <= count <= IOV_MAX && iovecs_ok(m0, iov_ptr, count as int, true) ==> {
            let iovs = iovec_seq(m0, iov_ptr, count as int);
            let data = read_data_of(k0.fs, fd, total_len(iovs));
            &&& (r is Ok <==> (k0.fs.handle(fd) matches Some(Handle::Reg { .. }) || k0.fs.handle(fd) matches Some(Handle::PipeR { .. })))
            &&& (r matches Err(e) ==> e == Errno::EBADF)
            &&& (r matches Ok(n) ==> {
                &&& n == data.len() <= total_len(iovs)
                &&& m1.mem() == scattered(m0.mem(), iovs, data)
            })
        })
}

/// Scatter-read: transfer through a descriptor into the fragments of a
/// validated descriptor array, in array order.
pub fn do_readv(k: &mut Kernel, m: &mut UserMem, fd: u32, iov_ptr: u64, count: i32) -> (r: Result<
    i64,
    Errno,
>)
    requires
        old(k).wf(),
        old(m).wf(),
    ensures
        readv_post(*old(k), *final(k), *old(m), *final(m), fd, iov_ptr, count, r),
{
    let iovs = materialize_iovecs(m, iov_ptr, count, true)?;
    proof {
        assert(iovs@ =~= iovec_seq(*m, iov_ptr, count as int));
    }
    let want = total_len_exec(&iovs);
    let data = k.fs.read_fd(fd, want)?;
    proof {
        assert(data@ =~= read_data_of(old(k).fs, fd, want as int));
    }
    let n = scatter(m, &iovs, &data);
    Ok(n as i64)
}

/// The fixed byte image stat hands to the caller: size, kind, padding.
pub open spec fn stat_le(s: Stat) -> Seq<u8> {
    u64_le(s.size) + u32_le(s.kind) + seq![0u8, 0u8, 0u8, 0u8]
}

/// Serialize a stat record to its caller-visible layout.
fn stat_bytes(s: &Stat) -> (r: Vec<u8>)
    ensures
        r@ == stat_le(*s),
{
    let mut out: Vec<u8> = Vec::new();
    out.push((s.size % 0x100) as u8);
    out.push(((s.size / 0x100) % 0x100) as u8);
    out.push(((s.size / 0x10000) % 0x100) as u8);
    out.push(((s.size / 0x1000000) % 0x100) as u8);
    out.push(((s.size / 0x100000000) % 0x100) as u8);
    out.push(((s.size / 0x10000000000) % 0x100) as u8);
    out.push(((s.size / 0x1000000000000) % 0x100) as u8);
    out.push(((s.size / 0x100000000000000) % 0x100) as u8);
    out.push((s.kind % 0x100) as u8);
    out.push(((s.kind / 0x100) % 0x100) as u8);
    out.push(((s.kind / 0x10000) % 0x100) as u8);
    out.push(((s.kind / 0x1000000) % 0x100) as u8);
    out.push(0u8);
    out.push(0u8);
    out.push(0u8);
    out.push(0u8);
    proof {
        assert(out@ =~= stat_le(*s));
    }
    out
}

/// The byte image of the time-of-day record: seconds, then microseconds,
/// each as a signed 64-bit word.
pub open spec fn timeval_le(sec: u64, usec: u32) -> Seq<u8> {
    u64_le(sec) + u64_le(usec as u64)
}

/// Everything `do_stat` promises of its outcome and the new state.
pub open spec fn stat_post(k: Kernel, m0: UserMem, m1: UserMem, path_ptr: u64, stat_out: u64, r: Result<i64, Errno>) -> bool {
    &&& (m1.wf())
    &&& (m1.size() == m0.size())
    &&& (m1.same_perms(m0))
    &&& (r is Err ==> m1 == m0)
    &&& ((cstring_at(m0, path_ptr) matches Err(e) ==> r == Err::<i64, Errno>(e)))
    &&& ((cstring_at(m0, path_ptr) matches Ok(p) ==> {
            &&& (!m0.writable(stat_out, 16) ==> r == Err::<i64, Errno>(Errno::EFAULT))
            &&& (m0.writable(stat_out, 16) ==> {
                &&& (r is Ok <==> k.fs.has_path(p))
                &&& (r matches Err(e) ==> e == Errno::ENOENT)
                &&& (r is Ok ==> r == Ok::<i64, Errno>(0) && exists|i: int|
                    {
                        &&& 0 <= i < k.fs.files@.len()
                        &&& (#[trigger] k.fs.files@[i].path)@ == p
                        &&& m1.mem() == splice(
                            m0.mem(),
                            stat_out as int,
                            stat_le(
                                Stat {
                                    size: k.fs.files@[i].data@.len() as u64,
                                    kind: crate::fs::S_KIND_REG,
                                },
                            ),
                        )
                    })
            })
        }))
}

/// Materialize a path, then report what stat says about it.
pub fn do_stat(k: &Kernel, m: &mut UserMem, path_ptr: u64, stat_out: u64) -> (r: Result<i64, Errno>)
    requires
        k.wf(),
        old(m).wf(),
    ensures
        stat_post(*k, *old(m), *final(m), path_ptr, stat_out, r),
{
    let path = clone_cstring_safely(m, path_ptr)?;
    if !m.check_write(stat_out, 16) {
        return Err(Errno::EFAULT);
    }
    let st = k.fs.stat_path(&path)?;
    let b = stat_bytes(&st);
    match m.write_range(stat_out, &b) {
        Ok(_) => {},
        Err(_) => {
            proof {
                assert(false);
            }
        },
    }
    Ok(0)
}

/// What fstat reports for an open descriptor of this filesystem state.
pub open spec fn fstat_of(fs: crate::fs::Fs, fd: u32) -> Stat {
    match fs.handle(fd) {
        Some(Handle::Reg { ino, off }) => Stat {
            size: fs.files@[ino as int].data@.len() as u64,
            kind: crate::fs::S_KIND_REG,
        },
        Some(Handle::PipeR { id }) => Stat {
            size: fs.pipes@[id as int]@.len() as u64,
            kind: crate::fs::S_KIND_PIPE,
        },
        Some(Handle::PipeW { id }) => Stat {
            size: fs.pipes@[id as int]@.len() as u64,
            kind: crate::fs::S_KIND_PIPE,
        },
        None => Stat { size: 0, kind: 0 },
    }
}

/// Everything `do_fstat` promises of its outcome and the new state.
pub open spec fn fstat_post(k: Kernel, m0: UserMem, m1: UserMem, fd: u32, stat_out: u64, r: Result<i64, Errno>) -> bool {
    &&& (m1.wf())
    &&& (m1.size() == m0.size())
    &&& (m1.same_perms(m0))
    &&& (r is Err ==> m1 == m0)
    &&& (!m0.writable(stat_out, 16) ==> r == Err::<i64, Errno>(Errno::EFAULT))
    &&& (m0.writable(stat_out, 16) ==> {
            &&& (r is Ok <==> k.fs.is_open(fd))
            &&& (r matches Err(e) ==> e == Errno::EBADF)
            &&& (r is Ok ==> r == Ok::<i64, Errno>(0) && m1.mem() == splice(
                m0.mem(),
                stat_out as int,
                stat_le(fstat_of(k.fs, fd)),
            ))
        })
}

/// Report what stat says about an open descriptor.
pub fn do_fstat(k: &Kernel, m: &mut UserMem, fd: u32, stat_out: u64) -> (r: Result<i64, Errno>)
    requires
        k.wf(),
        old(m).wf(),
    ensures
        fstat_post(*k, *old(m), *final(m), fd, stat_out, r),
{
    if !m.check_write(stat_out, 16) {
        return Err(Errno::EFAULT);
    }
    let st = k.fs.fstat(fd)?;
    let b = stat_bytes(&st);
    match m.write_range(stat_out, &b) {
        Ok(_) => {},
        Err(_) => {
            proof {
                assert(false);
            }
        },
    }
    Ok(0)
}

/// Like `do_stat`; the model resolves no symbolic links, so the two
/// agree on every path.
pub fn do_lstat(k: &Kernel, m: &mut UserMem, path_ptr: u64, stat_out: u64) -> (r: Result<
    i64,
    Errno,
>)
    requires
        k.wf(),
        old(m).wf(),
    ensures
        stat_post(*k, *old(m), *final(m), path_ptr, stat_out, r),
{
    do_stat(k, m, path_ptr, stat_out)
}

/// Everything `do_lseek` promises of its outcome and the new state.
pub open spec fn lseek_post(k0: Kernel, k1: Kernel, fd: u32, offset: i64, whence: i32, r: Result<i64, Errno>) -> bool {
    &&& (k1.wf())
    &&& (k1.procs == k0.procs)
    &&& (k1.vm == k0.vm)
    &&& (k1.clock == k0.clock)
    &&& (k1.fs.files == k0.fs.files)
    &&& (k1.fs.pipes == k0.fs.pipes)
    &&& (k1.fs.cwd == k0.fs.cwd)
    &&& (r is Err ==> k1 == k0)
    &&& (whence == 0 && offset < 0 ==> r == Err::<i64, Errno>(Errno::EINVAL))
    &&& (!(whence == 0 || whence == 1 || whence == 2) ==> r == Err::<i64, Errno>(Errno::EINVAL))
    &&& ((whence == 0 && offset >= 0) || whence == 1 || whence == 2 ==> {
            let from = if whence == 0 {
                SeekFrom::Start(offset as u64)
            } else if whence == 1 {
                SeekFrom::Current(offset)
            } else {
                SeekFrom::End(offset)
            };
            &&& (k0.fs.handle(fd) is None ==> r == Err::<i64, Errno>(Errno::EBADF))
            &&& ((k0.fs.handle(fd) matches Some(Handle::PipeR { .. }) || k0.fs.handle(fd)
                matches Some(Handle::PipeW { .. })) ==> r == Err::<i64, Errno>(Errno::ESPIPE))
            &&& (k0.fs.handle(fd) matches Some(Handle::Reg { ino, off }) ==> {
                let t = seek_target(
                    k0.fs.files@[ino as int].data@.len() as int,
                    off as int,
                    from,
                );
                &&& (t < 0 ==> r == Err::<i64, Errno>(Errno::EINVAL))
                &&& (t > FILE_MAX ==> r == Err::<i64, Errno>(Errno::EOVERFLOW))
                &&& (0 <= t <= FILE_MAX ==> r == Ok::<i64, Errno>(t as i64) && k1.fs.handle(
                    fd,
                ) == Some(Handle::Reg { ino, off: t as u64 }) && (forall|g: u32|
                    g != fd ==> k1.fs.handle(g) == k0.fs.handle(g)))
            })
        })
}

/// Translate the whence word and the signed offset into a seek, rejecting
/// an absolute seek to a negative offset before the filesystem is ever
/// consulted.
pub fn do_lseek(k: &mut Kernel, fd: u32, offset: i64, whence: i32) -> (r: Result<i64, Errno>)
    requires
        old(k).wf(),
    ensures
        lseek_post(*old(k), *final(k), fd, offset, whence, r),
{
    let from = match whence {
        0 => {
            if offset < 0 {
                return Err(Errno::EINVAL);
            }
            SeekFrom::Start(offset as u64)
        },
        1 => SeekFrom::Current(offset),
        2 => SeekFrom::End(offset),
        _ => {
            return Err(Errno::EINVAL);
        },
    };
    let off = k.fs.lseek(fd, from)?;
    Ok(off as i64)
}

/// Everything `do_fsync` promises of its outcome and the new state.
pub open spec fn fsync_post(k: Kernel, fd: u32, r: Result<i64, Errno>) -> bool {
    &&& (r is Ok <==> k.fs.is_open(fd))
    &&& (r is Ok ==> r == Ok::<i64, Errno>(0))
    &&& (r matches Err(e) ==> e == Errno::EBADF)
}

/// Flush one descriptor.
pub fn do_fsync(k: &Kernel, fd: u32) -> (r: Result<i64, Errno>)
    requires
        k.wf(),
    ensures
        fsync_post(*k, fd, r),
{
    k.fs.fsync(fd)?;
    Ok(0)
}

/// Flush one descriptor's data.
pub fn do_fdatasync(k: &Kernel, fd: u32) -> (r: Result<i64, Errno>)
    requires
        k.wf(),
    ensures
        fsync_post(*k, fd, r),
{
    k.fs.fsync(fd)?;
    Ok(0)
}

/// Everything `do_truncate` promises of its outcome and the new state.
pub open spec fn truncate_post(k0: Kernel, k1: Kernel, m: UserMem, path_ptr: u64, len: u64, r: Result<i64, Errno>) -> bool {
    &&& (k1.wf())
    &&& (k1.procs == k0.procs)
    &&& (k1.vm == k0.vm)
    &&& (k1.clock == k0.clock)
    &&& (k1.fs.table == k0.fs.table)
    &&& (k1.fs.pipes == k0.fs.pipes)
    &&& (k1.fs.cwd == k0.fs.cwd)
    &&& (r is Err ==> k1 == k0)
    &&& ((cstring_at(m, path_ptr) matches Err(e) ==> r == Err::<i64, Errno>(e)))
    &&& ((cstring_at(m, path_ptr) matches Ok(p) ==> {
            &&& (r is Ok <==> k_has(k0, p) && len <= FILE_MAX)
            &&& (r is Ok ==> r == Ok::<i64, Errno>(0) && exists|i: int|
                {
                    &&& 0 <= i < k0.fs.files@.len()
                    &&& (#[trigger] k0.fs.files@[i].path)@ == p
                    &&& k1.fs.files@[i].data@ == crate::fs::resized(
                        k0.fs.files@[i].data@,
                        len as int,
                    )
                })
            &&& (r matches Err(e) ==> e == (if k_has(k0, p) {
                Errno::EFBIG
            } else {
                Errno::ENOENT
            }))
        }))
}

/// Materialize a path and truncate or zero-extend the file it names.
pub fn do_truncate(k: &mut Kernel, m: &UserMem, path_ptr: u64, len: u64) -> (r: Result<i64, Errno>)
    requires
        old(k).wf(),
        m.wf(),
    ensures
        truncate_post(*old(k), *final(k), *m, path_ptr, len, r),
{
    let path = clone_cstring_safely(m, path_ptr)?;
    k.fs.truncate_path(&path, len)?;
    Ok(0)
}

/// Whether the filesystem of `k` knows a path.
pub open spec fn k_has(k: Kernel, p: Seq<u8>) -> bool {
    k.fs.has_path(p)
}

/// Everything `do_ftruncate` promises of its outcome and the new state.
pub open spec fn ftruncate_post(k0: Kernel, k1: Kernel, fd: u32, len: u64, r: Result<i64, Errno>) -> bool {
    &&& (k1.wf())
    &&& (k1.procs == k0.procs)
    &&& (k1.vm == k0.vm)
    &&& (k1.clock == k0.clock)
    &&& (k1.fs.table == k0.fs.table)
    &&& (k1.fs.pipes == k0.fs.pipes)
    &&& (k1.fs.cwd == k0.fs.cwd)
    &&& (r is Err ==> k1 == k0)
    &&& (r is Ok <==> (k0.fs.handle(fd) matches Some(Handle::Reg { .. })) && len <= FILE_MAX)
    &&& (r is Ok ==> r == Ok::<i64, Errno>(0))
    &&& ((k0.fs.handle(fd) matches Some(Handle::Reg { ino, off }) ==> (r is Ok
            ==> k1.fs.files@[ino as int].data@ == crate::fs::resized(
            k0.fs.files@[ino as int].data@,
            len as int,
        ))))
    &&& (r matches Err(e) ==> e == (match k0.fs.handle(fd) {
            Some(Handle::Reg { .. }) => Errno::EFBIG,
            Some(_) => Errno::EINVAL,
            None => Errno::EBADF,
        }))
}

/// Truncate or zero-extend the file a regular descriptor points at.
pub fn do_ftruncate(k: &mut Kernel, fd: u32, len: u64) -> (r: Result<i64, Errno>)
    requires
        old(k).wf(),
    ensures
        ftruncate_post(*old(k), *final(k), fd, len, r),
{
    k.fs.ftruncate(fd, len)?;
    Ok(0)
}

/// Everything `do_getdents64` promises of its outcome and the new state.
pub open spec fn getdents_post(k: Kernel, m0: UserMem, m1: UserMem, fd: u32, buf: u64, size: u64, r: Result<i64, Errno>) -> bool {
    &&& (m1 == m0)
    &&& (!m0.writable(buf, size) ==> r == Err::<i64, Errno>(Errno::EFAULT))
    &&& (m0.writable(buf, size) ==> r == Err::<i64, Errno>(
            if k.fs.is_open(fd) {
                Errno::ENOTDIR
            } else {
                Errno::EBADF
            },
        ))
}

/// Directory entries into a validated caller buffer. The model stores no
/// directories, so after validation every open descriptor reports
/// `ENOTDIR`.
pub fn do_getdents64(k: &Kernel, m: &mut UserMem, fd: u32, buf: u64, size: u64) -> (r: Result<
    i64,
    Errno,
>)
    requires
        k.wf(),
        old(m).wf(),
    ensures
        getdents_post(*k, *old(m), *final(m), fd, buf, size, r),
{
    if !m.check_write(buf, size) {
        return Err(Errno::EFAULT);
    }
    match k.fs.getdents(fd) {
        Err(e) => Err(e),
        Ok(_) => {
            proof {
                assert(false);
            }
            Ok(0)
        },
    }
}

/// Flush everything.
pub fn do_sync(k: &Kernel) -> (r: Result<i64, Errno>)
    requires
        k.wf(),
    ensures
        r == Ok::<i64, Errno>(0),
{
    k.fs.sync();
    Ok(0)
}

/// Everything `do_getcwd` promises of its outcome and the new state.
pub open spec fn getcwd_post(k: Kernel, m0: UserMem, m1: UserMem, buf: u64, size: u64, r: Result<i64, Errno>) -> bool {
    &&& (m1.wf())
    &&& (m1.size() == m0.size())
    &&& (m1.same_perms(m0))
    &&& (r is Err ==> m1 == m0)
    &&& (!m0.writable(buf, size) ==> r == Err::<i64, Errno>(Errno::EFAULT))
    &&& (m0.writable(buf, size) && k.fs.cwd@.len() + 1 > size ==> r == Err::<i64, Errno>(
            Errno::ERANGE,
        ))
    &&& (m0.writable(buf, size) && k.fs.cwd@.len() + 1 <= size ==> r == Ok::<i64, Errno>(0)
            && m1.mem() == splice(m0.mem(), buf as int, k.fs.cwd@ + seq![0u8]))
}

/// Copy the current working path, NUL-terminated, into a validated caller
/// buffer: the too-small-buffer error when the buffer cannot hold the
/// path plus its terminator, with nothing written.
pub fn do_getcwd(k: &Kernel, m: &mut UserMem, buf: u64, size: u64) -> (r: Result<i64, Errno>)
    requires
        k.wf(),
        old(m).wf(),
    ensures
        getcwd_post(*k, *old(m), *final(m), buf, size, r),
{
    if !m.check_write(buf, size) {
        return Err(Errno::EFAULT);
    }
    let cwd_len = k.fs.cwd.len() as u64;
    if cwd_len + 1 > size {
        return Err(Errno::ERANGE);
    }
    let mut data = copy_bytes(&k.fs.cwd);
    data.push(0u8);
    proof {
        assert(data@ =~= k.fs.cwd@ + seq![0u8]);
        assert(old(m).writable(buf, data@.len() as u64)) by {
            assert(forall|t: int| buf <= t < buf + size ==> old(m).write_perm()[t]);
        }
    }
    match m.write_range(buf, &data) {
        Ok(_) => {},
        Err(_) => {
            proof {
                assert(false);
            }
        },
    }
    Ok(0)
}

/// Record the calling process's exit. The caller of the dispatcher
/// interprets the terminate outcome by ending this execution context;
/// there is no error channel and no return word.
pub fn do_exit(k: &mut Kernel, status: i32)
    requires
        old(k).wf(),
    ensures
        final(k).wf(),
        final(k).fs == old(k).fs,
        final(k).vm == old(k).vm,
        final(k).clock == old(k).clock,
        final(k).procs.procs@ == old(k).procs.procs@.update(
            old(k).procs.cur as int,
            Proc { alive: false, status, ..old(k).procs.current() },
        ),
        final(k).procs.cur == old(k).procs.cur,
        final(k).procs.next_pid == old(k).procs.next_pid,
{
    k.procs.exit_current(status);
}

/// The materialized arguments of a spawn request, in validation order:
/// the path, the argument strings, the environment strings, the file
/// actions; or the first materialization error.
pub open spec fn spawn_args(m: UserMem, path_ptr: u64, argv: u64, envp: u64, fdop: u64) -> Result<
    (Seq<u8>, Seq<Seq<u8>>, Seq<Seq<u8>>, Seq<FileAction>),
    Errno,
> {
    match cstring_at(m, path_ptr) {
        Err(e) => Err(e),
        Ok(p) => match cstrings_from(m, argv, 0) {
            Err(e) => Err(e),
            Ok(a) => match cstrings_from(m, envp, 0) {
                Err(e) => Err(e),
                Ok(en) => match actions_from(m, fdop, FDOP_LIST_MAX as nat) {
                    Err(e) => Err(e),
                    Ok(acts) => Ok((p, a, en, acts)),
                },
            },
        },
    }
}

/// Everything `do_spawn` promises of its outcome and the new state.
pub open spec fn spawn_post(k0: Kernel, k1: Kernel, m0: UserMem, m1: UserMem, pid_ptr: u64, path_ptr: u64, argv: u64, envp: u64, fdop_list: u64, r: Result<i64, Errno>) -> bool {
    &&& (k1.wf())
    &&& (m1.wf())
    &&& (m1.size() == m0.size())
    &&& (m1.same_perms(m0))
    &&& (k1.fs == k0.fs)
    &&& (k1.vm == k0.vm)
    &&& (k1.clock == k0.clock)
    &&& (r is Err ==> k1 == k0 && m1 == m0)
    &&& (!m0.writable(pid_ptr, 4) ==> r == Err::<i64, Errno>(Errno::EFAULT))
    &&& (m0.writable(pid_ptr, 4) ==> {
            &&& (spawn_args(m0, path_ptr, argv, envp, fdop_list) matches Err(e) ==> r
                == Err::<i64, Errno>(e))
            &&& (spawn_args(m0, path_ptr, argv, envp, fdop_list) matches Ok(t) ==> {
                &&& (r is Ok <==> actions_ok(k0.fs, t.3) && k0.procs.next_pid < PID_MAX)
                &&& (!actions_ok(k0.fs, t.3) ==> r is Err && (r->Err_0 == Errno::EBADF
                    || r->Err_0 == Errno::EINVAL))
                &&& (actions_ok(k0.fs, t.3) && k0.procs.next_pid >= PID_MAX ==> r
                    == Err::<i64, Errno>(Errno::EAGAIN))
                &&& (r is Ok ==> {
                    &&& r == Ok::<i64, Errno>(0)
                    &&& k1.procs.procs@ == k0.procs.procs@.push(
                        Proc {
                            pid: k0.procs.next_pid,
                            ppid: k0.procs.current().pid,
                            pgid: k0.procs.current().pgid,
                            alive: true,
                            reaped: false,
                            status: 0,
                        },
                    )
                    &&& k1.procs.next_pid == k0.procs.next_pid + 1
                    &&& m1.mem() == splice(
                        m0.mem(),
                        pid_ptr as int,
                        u32_le(k0.procs.next_pid),
                    )
                })
            })
        })
}

/// Materialize every spawn argument, validate the action list against the
/// parent's descriptor table, and only then create the child, writing its
/// fresh pid into the validated out-pointer. Any failure happens strictly
/// before the child exists: a rejected spawn creates no process and
/// leaves the parent's descriptors untouched.
pub fn do_spawn(
    k: &mut Kernel,
    m: &mut UserMem,
    pid_ptr: u64,
    path_ptr: u64,
    argv: u64,
    envp: u64,
    fdop_list: u64,
) -> (r: Result<i64, Errno>)
    requires
        old(k).wf(),
        old(m).wf(),
    ensures
        spawn_post(*old(k), *final(k), *old(m), *final(m), pid_ptr, path_ptr, argv, envp, fdop_list, r),
{
    if !m.check_write(pid_ptr, 4) {
        return Err(Errno::EFAULT);
    }
    let path = clone_cstring_safely(&*m, path_ptr)?;
    let argv_v = clone_cstrings_safely(&*m, argv)?;
    let envp_v = clone_cstrings_safely(&*m, envp)?;
    let acts = clone_file_actions_safely(&*m, fdop_list)?;
    k.fs.check_actions(&acts)?;
    let pid = k.procs.add_child()?;
    match m.write_u32(pid_ptr, pid) {
        Ok(_) => {},
        Err(_) => {
            proof {
                assert(false);
            }
        },
    }
    Ok(0)
}

/// The child-selection mode a signed wait pid names: below -1 the group
/// of its magnitude, -1 any child, 0 the caller's own group, positive
/// exactly that pid.
pub open spec fn wait_filter_spec(pid: int, caller_pgid: u32) -> ChildProcessFilter {
    if pid < -1 {
        ChildProcessFilter::WithPGID((-pid) as u32)
    } else if pid == -1 {
        ChildProcessFilter::WithAnyPID
    } else if pid == 0 {
        ChildProcessFilter::WithPGID(caller_pgid)
    } else {
        ChildProcessFilter::WithPID(pid as u32)
    }
}

/// Everything `do_wait4` promises of its outcome and the new state.
pub open spec fn wait4_post(k0: Kernel, k1: Kernel, m0: UserMem, m1: UserMem, pid: i32, status_ptr: u64, r: Result<i64, Errno>) -> bool {
    &&& (k1.wf())
    &&& (m1.wf())
    &&& (m1.size() == m0.size())
    &&& (m1.same_perms(m0))
    &&& (k1.fs == k0.fs)
    &&& (k1.vm == k0.vm)
    &&& (k1.clock == k0.clock)
    &&& (r is Err ==> k1 == k0 && m1 == m0)
    &&& (status_ptr != 0 && !m0.writable(status_ptr, 4) ==> r == Err::<i64, Errno>(
            Errno::EFAULT,
        ))
    &&& (status_ptr == 0 || m0.writable(status_ptr, 4) ==> {
            let f = wait_filter_spec(pid as int, k0.procs.current().pgid);
            &&& (r is Ok <==> exists|i: int| k0.procs.reapable(f, i))
            &&& (r == Err::<i64, Errno>(Errno::EAGAIN) <==> !(exists|i: int|
                k0.procs.reapable(f, i)) && (exists|i: int| k0.procs.eligible(f, i)))
            &&& (r == Err::<i64, Errno>(Errno::ECHILD) <==> !(exists|i: int|
                k0.procs.eligible(f, i)))
            &&& (r matches Ok(v) ==> exists|i: int|
                {
                    &&& k0.procs.reapable(f, i)
                    &&& v == k0.procs.procs@[i].pid
                    &&& k1.procs.procs@ == k0.procs.procs@.update(
                        i,
                        Proc { reaped: true, ..k0.procs.procs@[i] },
                    )
                    &&& (status_ptr != 0 ==> m1.mem() == splice(
                        m0.mem(),
                        status_ptr as int,
                        u32_le(k0.procs.procs@[i].status as u32),
                    ))
                    &&& (status_ptr == 0 ==> m1 == m0)
                })
        })
}

/// Build the wait filter from the signed pid argument, collect one
/// matching child's status, and store it through the optional validated
/// status pointer. A wait that would block reports `EAGAIN` here; one
/// that can never be satisfied reports `ECHILD`.
pub fn do_wait4(k: &mut Kernel, m: &mut UserMem, pid: i32, status_ptr: u64) -> (r: Result<
    i64,
    Errno,
>)
    requires
        old(k).wf(),
        old(m).wf(),
    ensures
        wait4_post(*old(k), *final(k), *old(m), *final(m), pid, status_ptr, r),
{
    if status_ptr != 0 && !m.check_write(status_ptr, 4) {
        return Err(Errno::EFAULT);
    }
    let pgid = k.procs.getpgid();
    let f = crate::process::wait_filter(pid, pgid);
    proof {
        assert(f == wait_filter_spec(pid as int, pgid));
    }
    let (child, status) = k.procs.wait4(f)?;
    if status_ptr != 0 {
        match m.write_u32(status_ptr, status as u32) {
            Ok(_) => {},
            Err(_) => {
                proof {
                    assert(false);
                }
            },
        }
    }
    Ok(child as i64)
}

/// The caller's pid.
pub fn do_getpid(k: &Kernel) -> (r: Result<i64, Errno>)
    requires
        k.wf(),
    ensures
        r == Ok::<i64, Errno>(k.procs.current().pid as i64),
{
    Ok(k.procs.getpid() as i64)
}

/// The caller's parent pid.
pub fn do_getppid(k: &Kernel) -> (r: Result<i64, Errno>)
    requires
        k.wf(),
    ensures
        r == Ok::<i64, Errno>(k.procs.current().ppid as i64),
{
    Ok(k.procs.getppid() as i64)
}

/// Everything `do_mmap` promises of its outcome and the new state.
pub open spec fn mmap_post(k0: Kernel, k1: Kernel, size: u64, prot: i32, r: Result<i64, Errno>) -> bool {
    &&& (k1.wf())
    &&& (k1.fs == k0.fs)
    &&& (k1.procs == k0.procs)
    &&& (k1.clock == k0.clock)
    &&& (k1.vm.brk == k0.vm.brk)
    &&& (r is Err ==> k1 == k0)
    &&& (r is Ok <==> 0 < size <= crate::vm::VM_TOP - k0.vm.next_base)
    &&& (r matches Err(e) ==> e == (if size == 0 {
            Errno::EINVAL
        } else {
            Errno::ENOMEM
        }))
    &&& (r matches Ok(a) ==> {
            &&& a == k0.vm.next_base
            &&& k1.vm.areas@ == k0.vm.areas@.push(
                crate::vm::Area { start: k0.vm.next_base, len: size, flags: prot as u32 },
            )
            &&& k1.vm.next_base == k0.vm.next_base + size
        })
}

/// Map a fresh memory area. Only the protection word shapes the area's
/// flags; the placement and sharing words and the descriptor are accepted
/// and not yet acted on.
pub fn do_mmap(
    k: &mut Kernel,
    _addr: u64,
    size: u64,
    prot: i32,
    _flags: i32,
    _fd: u32,
    _offset: i64,
) -> (r: Result<i64, Errno>)
    requires
        old(k).wf(),
    ensures
        mmap_post(*old(k), *final(k), size, prot, r),
{
    let a = k.vm.mmap(size, prot as u32)?;
    Ok(a as i64)
}

/// Everything `do_munmap` promises of its outcome and the new state.
pub open spec fn munmap_post(k0: Kernel, k1: Kernel, addr: u64, size: u64, r: Result<i64, Errno>) -> bool {
    &&& (k1.wf())
    &&& (k1.fs == k0.fs)
    &&& (k1.procs == k0.procs)
    &&& (k1.clock == k0.clock)
    &&& (r is Err ==> k1 == k0)
    &&& (r is Ok <==> exists|i: int|
            0 <= i < k0.vm.areas@.len() && (#[trigger] k0.vm.areas@[i]).start == addr
                && k0.vm.areas@[i].len == size)
    &&& (r is Ok ==> r == Ok::<i64, Errno>(0))
    &&& (r matches Err(e) ==> e == Errno::EINVAL)
}

/// Unmap one previously mapped area.
pub fn do_munmap(k: &mut Kernel, addr: u64, size: u64) -> (r: Result<i64, Errno>)
    requires
        old(k).wf(),
    ensures
        munmap_post(*old(k), *final(k), addr, size, r),
{
    k.vm.munmap(addr, size)?;
    Ok(0)
}

/// Everything `do_mremap` promises of its outcome and the new state.
pub open spec fn mremap_post(k0: Kernel, k1: Kernel, old_addr: u64, old_size: u64, new_size: u64, r: Result<i64, Errno>) -> bool {
    &&& (k1.wf())
    &&& (k1.fs == k0.fs)
    &&& (k1.procs == k0.procs)
    &&& (k1.clock == k0.clock)
    &&& (r is Err ==> k1 == k0)
    &&& (new_size == 0 ==> r == Err::<i64, Errno>(Errno::EINVAL))
    &&& (r is Ok <==> 0 < new_size <= crate::vm::VM_TOP - k0.vm.next_base && (exists|i: int|
            0 <= i < k0.vm.areas@.len() && (#[trigger] k0.vm.areas@[i]).start == old_addr
                && k0.vm.areas@[i].len == old_size))
    &&& (r matches Ok(a) ==> a == k0.vm.next_base)
    &&& (r is Ok ==> exists|i: int|
        {
            &&& 0 <= i < k0.vm.areas@.len()
            &&& (#[trigger] k0.vm.areas@[i]).start == old_addr
            &&& k0.vm.areas@[i].len == old_size
            &&& k1.vm.areas@ == k0.vm.areas@.remove(i).push(
                crate::vm::Area {
                    start: k0.vm.next_base,
                    len: new_size,
                    flags: k0.vm.areas@[i].flags,
                },
            )
            &&& k1.vm.next_base == k0.vm.next_base + new_size
        })
}

/// Move and resize one previously mapped area; its flags travel with it.
/// The flags and target-address words of the request are accepted and not
/// yet acted on.
pub fn do_mremap(k: &mut Kernel, old_addr: u64, old_size: u64, new_size: u64, _flags: i32, _new_addr: u64) -> (r: Result<i64, Errno>)
    requires
        old(k).wf(),
    ensures
        mremap_post(*old(k), *final(k), old_addr, old_size, new_size, r),
{
    let a = k.vm.mremap(old_addr, old_size, new_size)?;
    Ok(a as i64)
}

/// Everything `do_brk` promises of its outcome and the new state.
pub open spec fn brk_post(k0: Kernel, k1: Kernel, new_brk: u64, r: Result<i64, Errno>) -> bool {
    &&& (k1.wf())
    &&& (k1.fs == k0.fs)
    &&& (k1.procs == k0.procs)
    &&& (k1.clock == k0.clock)
    &&& (k1.vm.areas == k0.vm.areas)
    &&& (k1.vm.next_base == k0.vm.next_base)
    &&& ((crate::vm::BRK_BASE <= new_brk <= crate::vm::BRK_TOP) ==> r == Ok::<i64, Errno>(
            new_brk as i64,
        ) && k1.vm.brk == new_brk)
    &&& (!(crate::vm::BRK_BASE <= new_brk <= crate::vm::BRK_TOP) ==> r == Ok::<i64, Errno>(
            k0.vm.brk as i64,
        ) && k1.vm.brk == k0.vm.brk)
}

/// Move the program break; never an error, the current break comes back.
pub fn do_brk(k: &mut Kernel, new_brk: u64) -> (r: Result<i64, Errno>)
    requires
        old(k).wf(),
    ensures
        brk_post(*old(k), *final(k), new_brk, r),
{
    let b = k.vm.brk(new_brk);
    Ok(b as i64)
}

/// Everything `do_pipe2` promises of its outcome and the new state.
pub open spec fn pipe2_post(k0: Kernel, k1: Kernel, m0: UserMem, m1: UserMem, fds_ptr: u64, r: Result<i64, Errno>) -> bool {
    &&& (k1.wf())
    &&& (m1.wf())
    &&& (m1.size() == m0.size())
    &&& (m1.same_perms(m0))
    &&& (k1.procs == k0.procs)
    &&& (k1.vm == k0.vm)
    &&& (k1.clock == k0.clock)
    &&& (k1.fs.files == k0.fs.files)
    &&& (k1.fs.cwd == k0.fs.cwd)
    &&& (r is Err ==> m1 == m0 && k1 == k0)
    &&& (!m0.writable(fds_ptr, 8) ==> r == Err::<i64, Errno>(Errno::EFAULT) && k1
            == k0)
    &&& (m0.writable(fds_ptr, 8) ==> {
            &&& (r is Ok <==> k0.fs.two_free_fds())
            &&& (r matches Err(e) ==> e == Errno::ENFILE)
            &&& (r is Ok ==> r == Ok::<i64, Errno>(0) && exists|rfd: u32, wfd: u32|
                {
                    &&& rfd != wfd
                    &&& k1.fs.handle(rfd) == Some(
                        crate::fs::Handle::PipeR { id: k0.fs.pipes@.len() as usize },
                    )
                    &&& k1.fs.handle(wfd) == Some(
                        crate::fs::Handle::PipeW { id: k0.fs.pipes@.len() as usize },
                    )
                    &&& k1.fs.pipes@.len() == k0.fs.pipes@.len() + 1
                    &&& k1.fs.pipes@.last()@ == Seq::<u8>::empty()
                    &&& (forall|g: u32|
                        g != rfd && g != wfd ==> k1.fs.handle(g) == k0.fs.handle(g))
                    &&& m1.mem() == splice(
                        m0.mem(),
                        fds_ptr as int,
                        u32_le(rfd) + u32_le(wfd),
                    )
                })
        })
}

/// Create a pipe and store its two descriptors, read end first, through
/// the validated out-pointer. The two descriptors are always distinct.
pub fn do_pipe2(k: &mut Kernel, m: &mut UserMem, fds_ptr: u64, flags: u32) -> (r: Result<
    i64,
    Errno,
>)
    requires
        old(k).wf(),
        old(m).wf(),
    ensures
        pipe2_post(*old(k), *final(k), *old(m), *final(m), fds_ptr, r),
{
    if !m.check_write(fds_ptr, 8) {
        return Err(Errno::EFAULT);
    }
    let (rfd, wfd) = k.fs.pipe2(flags)?;
    let mut data: Vec<u8> = Vec::new();
    data.push((rfd % 0x100) as u8);
    data.push(((rfd / 0x100) % 0x100) as u8);
    data.push(((rfd / 0x10000) % 0x100) as u8);
    data.push(((rfd / 0x1000000) % 0x100) as u8);
    data.push((wfd % 0x100) as u8);
    data.push(((wfd / 0x100) % 0x100) as u8);
    data.push(((wfd / 0x10000) % 0x100) as u8);
    data.push(((wfd / 0x1000000) % 0x100) as u8);
    proof {
        assert(data@ =~= u32_le(rfd) + u32_le(wfd));
    }
    match m.write_range(fds_ptr, &data) {
        Ok(_) => {},
        Err(_) => {
            proof {
                assert(false);
            }
        },
    }
    Ok(0)
}

/// Everything `do_dup` promises of its outcome and the new state.
pub open spec fn dup_post(k0: Kernel, k1: Kernel, fd: u32, r: Result<i64, Errno>) -> bool {
    &&& (k1.wf())
    &&& (k1.procs == k0.procs)
    &&& (k1.vm == k0.vm)
    &&& (k1.clock == k0.clock)
    &&& (k1.fs.files == k0.fs.files)
    &&& (k1.fs.pipes == k0.fs.pipes)
    &&& (k1.fs.cwd == k0.fs.cwd)
    &&& (r is Err ==> k1 == k0)
    &&& (r is Ok <==> k0.fs.is_open(fd) && k0.fs.free_fd())
    &&& (r matches Ok(nfd) ==> 0 <= nfd < FD_MAX && k1.fs.handle(nfd as u32) == k0.fs.handle(fd) && k0.fs.handle(nfd as u32) is None && (forall|g: u32|
            g != nfd ==> k1.fs.handle(g) == k0.fs.handle(g)))
    &&& (r matches Err(e) ==> e == (if k0.fs.is_open(fd) {
            Errno::ENFILE
        } else {
            Errno::EBADF
        }))
}

/// Duplicate a descriptor onto the lowest free slot.
pub fn do_dup(k: &mut Kernel, fd: u32) -> (r: Result<i64, Errno>)
    requires
        old(k).wf(),
    ensures
        dup_post(*old(k), *final(k), fd, r),
{
    let nfd = k.fs.dup(fd)?;
    Ok(nfd as i64)
}

/// Everything `do_dup2` promises of its outcome and the new state.
pub open spec fn dup2_post(k0: Kernel, k1: Kernel, old_fd: u32, new_fd: u32, r: Result<i64, Errno>) -> bool {
    &&& (k1.wf())
    &&& (k1.procs == k0.procs)
    &&& (k1.vm == k0.vm)
    &&& (k1.clock == k0.clock)
    &&& (k1.fs.files == k0.fs.files)
    &&& (k1.fs.pipes == k0.fs.pipes)
    &&& (k1.fs.cwd == k0.fs.cwd)
    &&& (r is Err ==> k1 == k0)
    &&& (r is Ok <==> k0.fs.is_open(old_fd) && new_fd < FD_MAX)
    &&& (r is Ok ==> r == Ok::<i64, Errno>(new_fd as i64) && k1.fs.handle(new_fd) == k0.fs.handle(old_fd) && (forall|g: u32|
            g != new_fd ==> k1.fs.handle(g) == k0.fs.handle(g)))
    &&& (r matches Err(e) ==> e == Errno::EBADF)
}

/// Duplicate a descriptor onto exactly the named slot.
pub fn do_dup2(k: &mut Kernel, old_fd: u32, new_fd: u32) -> (r: Result<i64, Errno>)
    requires
        old(k).wf(),
    ensures
        dup2_post(*old(k), *final(k), old_fd, new_fd, r),
{
    let nfd = k.fs.dup2(old_fd, new_fd)?;
    Ok(nfd as i64)
}

/// Everything `do_dup3` promises of its outcome and the new state.
pub open spec fn dup3_post(k0: Kernel, k1: Kernel, old_fd: u32, new_fd: u32, r: Result<i64, Errno>) -> bool {
    &&& (k1.wf())
    &&& (k1.procs == k0.procs)
    &&& (k1.vm == k0.vm)
    &&& (k1.clock == k0.clock)
    &&& (k1.fs.files == k0.fs.files)
    &&& (k1.fs.pipes == k0.fs.pipes)
    &&& (k1.fs.cwd == k0.fs.cwd)
    &&& (r is Err ==> k1 == k0)
    &&& (r is Ok <==> k0.fs.is_open(old_fd) && new_fd < FD_MAX && old_fd != new_fd)
    &&& (r is Ok ==> r == Ok::<i64, Errno>(new_fd as i64) && k1.fs.handle(new_fd) == k0.fs.handle(old_fd) && (forall|g: u32|
            g != new_fd ==> k1.fs.handle(g) == k0.fs.handle(g)))
    &&& (r matches Err(e) ==> e == (if old_fd == new_fd {
            Errno::EINVAL
        } else {
            Errno::EBADF
        }))
}

/// Like `do_dup2`, except that naming the same descriptor twice is an
/// error.
pub fn do_dup3(k: &mut Kernel, old_fd: u32, new_fd: u32, flags: u32) -> (r: Result<i64, Errno>)
    requires
        old(k).wf(),
    ensures
        dup3_post(*old(k), *final(k), old_fd, new_fd, r),
{
    let nfd = k.fs.dup3(old_fd, new_fd, flags)?;
    Ok(nfd as i64)
}

/// Everything `do_gettimeofday` promises of its outcome and the new state.
pub open spec fn gtod_post(k: Kernel, m0: UserMem, m1: UserMem, tv_ptr: u64, r: Result<i64, Errno>) -> bool {
    &&& (m1.wf())
    &&& (m1.size() == m0.size())
    &&& (m1.same_perms(m0))
    &&& (r is Err ==> m1 == m0)
    &&& (!m0.writable(tv_ptr, 16) ==> r == Err::<i64, Errno>(Errno::EFAULT))
    &&& (m0.writable(tv_ptr, 16) ==> r == Ok::<i64, Errno>(0) && m1.mem() == splice(
            m0.mem(),
            tv_ptr as int,
            timeval_le(k.clock.sec, k.clock.usec),
        ))
}

/// Store the current time of day through a validated caller pointer.
pub fn do_gettimeofday(k: &Kernel, m: &mut UserMem, tv_ptr: u64) -> (r: Result<i64, Errno>)
    requires
        k.wf(),
        old(m).wf(),
    ensures
        gtod_post(*k, *old(m), *final(m), tv_ptr, r),
{
    if !m.check_write(tv_ptr, 16) {
        return Err(Errno::EFAULT);
    }
    let (sec, usec) = k.clock.now();
    let usec64 = usec as u64;
    let mut data: Vec<u8> = Vec::new();
    data.push((sec % 0x100) as u8);
    data.push(((sec / 0x100) % 0x100) as u8);
    data.push(((sec / 0x10000) % 0x100) as u8);
    data.push(((sec / 0x1000000) % 0x100) as u8);
    data.push(((sec / 0x100000000) % 0x100) as u8);
    data.push(((sec / 0x10000000000) % 0x100) as u8);
    data.push(((sec / 0x1000000000000) % 0x100) as u8);
    data.push(((sec / 0x100000000000000) % 0x100) as u8);
    data.push((usec64 % 0x100) as u8);
    data.push(((usec64 / 0x100) % 0x100) as u8);
    data.push(((usec64 / 0x10000) % 0x100) as u8);
    data.push(((usec64 / 0x1000000) % 0x100) as u8);
    data.push(((usec64 / 0x100000000) % 0x100) as u8);
    data.push(((usec64 / 0x10000000000) % 0x100) as u8);
    data.push(((usec64 / 0x1000000000000) % 0x100) as u8);
    data.push(((usec64 / 0x100000000000000) % 0x100) as u8);
    proof {
        assert(data@ =~= timeval_le(k.clock.sec, k.clock.usec));
    }
    match m.write_range(tv_ptr, &data) {
        Ok(_) => {},
        Err(_) => {
            proof {
                assert(false);
            }
        },
    }
    Ok(0)
}

/// Every unmapped syscall id: the unsupported-operation error, nothing
/// else.
pub fn do_unknown(_num: u32) -> (r: Result<i64, Errno>)
    ensures
        r == Err::<i64, Errno>(Errno::ENOSYS),
{
    Err(Errno::ENOSYS)
}

/// The single-word folding of a handler outcome: the success value on a
/// non-negative word, or the negative errno value of the error, exactly
/// as the ABI convention demands. Subsystem errors pass through this
/// mapping unmodified; nothing reinterprets them.
pub open spec fn folded_word(res: Result<i64, Errno>) -> Control {
    match res {
        Ok(code) => Control::Return(code),
        Err(e) => Control::Return((-errno_num(e)) as i64),
    }
}

/// The entry point: map the syscall id to its one handler, reinterpret
/// the six raw words per that handler's signature, run it, and fold the
/// outcome into the single-word convention: the success value, or the
/// negative errno. An unmapped id returns the unsupported-operation code
/// and touches nothing. The exit id alone produces the terminate outcome
/// instead of a return word.
pub fn dispatch_syscall(
    k: &mut Kernel,
    m: &mut UserMem,
    num: u32,
    arg0: i64,
    arg1: i64,
    arg2: i64,
    arg3: i64,
    arg4: i64,
    arg5: i64,
) -> (r: Control)
    requires
        old(k).wf(),
        old(m).wf(),
    ensures
        final(k).wf(),
        final(m).wf(),
        final(m).size() == old(m).size(),
        final(m).same_perms(*old(m)),
        !supported(num) ==> r == Control::Return(retval_of(Errno::ENOSYS) as i64) && *final(k)
            == *old(k) && *final(m) == *old(m),
        num == SYS_EXIT ==> r == Control::Terminate(arg0 as i32),
        num == SYS_EXIT ==> *final(m) == *old(m),
        num == SYS_EXIT ==> final(k).procs.procs@ == old(k).procs.procs@.update(
            old(k).procs.cur as int,
            (Proc { alive: false, status: arg0 as i32, ..old(k).procs.current() }),
        ),
        num == SYS_EXIT ==> final(k).fs == old(k).fs && final(k).vm == old(k).vm && final(k).clock
            == old(k).clock,
        supported(num) && num != SYS_EXIT ==> r is Return,
        num == SYS_LSEEK && (arg2 as i32) == 0 && arg1 < 0 ==> r == Control::Return(
            retval_of(Errno::EINVAL) as i64,
        ) && *final(k) == *old(k) && *final(m) == *old(m),
        num == SYS_OPEN ==> *final(m) == *old(m) && (exists|res: Result<i64, Errno>| #[trigger] open_post(*old(k), *final(k), *old(m), arg0 as u64, arg1 as u32, res) && r == folded_word(res)),
        num == SYS_CLOSE ==> *final(m) == *old(m) && (exists|res: Result<i64, Errno>| #[trigger] close_post(*old(k), *final(k), arg0 as u32, res) && r == folded_word(res)),
        num == SYS_READ ==> (exists|res: Result<i64, Errno>| #[trigger] read_post(*old(k), *final(k), *old(m), *final(m), arg0 as u32, arg1 as u64, arg2 as u64, res) && r == folded_word(res)),
        num == SYS_WRITE ==> *final(m) == *old(m) && (exists|res: Result<i64, Errno>| #[trigger] write_post(*old(k), *final(k), *old(m), arg0 as u32, arg1 as u64, arg2 as u64, res) && r == folded_word(res)),
        num == SYS_READV ==> (exists|res: Result<i64, Errno>| #[trigger] readv_post(*old(k), *final(k), *old(m), *final(m), arg0 as u32, arg1 as u64, arg2 as i32, res) && r == folded_word(res)),
        num == SYS_WRITEV ==> *final(m) == *old(m) && (exists|res: Result<i64, Errno>| #[trigger] writev_post(*old(k), *final(k), *old(m), arg0 as u32, arg1 as u64, arg2 as i32, res) && r == folded_word(res)),
        num == SYS_STAT ==> *final(k) == *old(k) && (exists|res: Result<i64, Errno>| #[trigger] stat_post(*old(k), *old(m), *final(m), arg0 as u64, arg1 as u64, res) && r == folded_word(res)),
        num == SYS_FSTAT ==> *final(k) == *old(k) && (exists|res: Result<i64, Errno>| #[trigger] fstat_post(*old(k), *old(m), *final(m), arg0 as u32, arg1 as u64, res) && r == folded_word(res)),
        num == SYS_LSTAT ==> *final(k) == *old(k) && (exists|res: Result<i64, Errno>| #[trigger] stat_post(*old(k), *old(m), *final(m), arg0 as u64, arg1 as u64, res) && r == folded_word(res)),
        num == SYS_LSEEK ==> *final(m) == *old(m) && (exists|res: Result<i64, Errno>| #[trigger] lseek_post(*old(k), *final(k), arg0 as u32, arg1, arg2 as i32, res) && r == folded_word(res)),
        num == SYS_FSYNC ==> *final(m) == *old(m) && *final(k) == *old(k) && (exists|res: Result<i64, Errno>| #[trigger] fsync_post(*old(k), arg0 as u32, res) && r == folded_word(res)),
        num == SYS_FDATASYNC ==> *final(m) == *old(m) && *final(k) == *old(k) && (exists|res: Result<i64, Errno>| #[trigger] fsync_post(*old(k), arg0 as u32, res) && r == folded_word(res)),
        num == SYS_TRUNCATE ==> *final(m) == *old(m) && (exists|res: Result<i64, Errno>| #[trigger] truncate_post(*old(k), *final(k), *old(m), arg0 as u64, arg1 as u64, res) && r == folded_word(res)),
        num == SYS_FTRUNCATE ==> *final(m) == *old(m) && (exists|res: Result<i64, Errno>| #[trigger] ftruncate_post(*old(k), *final(k), arg0 as u32, arg1 as u64, res) && r == folded_word(res)),
        num == SYS_GETDENTS64 ==> *final(k) == *old(k) && (exists|res: Result<i64, Errno>| #[trigger] getdents_post(*old(k), *old(m), *final(m), arg0 as u32, arg1 as u64, arg2 as u64, res) && r == folded_word(res)),
        num == SYS_SYNC ==> r == Control::Return(0i64) && *final(k) == *old(k) && *final(m)
            == *old(m),
        num == SYS_GETCWD ==> *final(k) == *old(k) && (exists|res: Result<i64, Errno>| #[trigger] getcwd_post(*old(k), *old(m), *final(m), arg0 as u64, arg1 as u64, res) && r == folded_word(res)),
        num == SYS_SPAWN ==> (exists|res: Result<i64, Errno>| #[trigger] spawn_post(*old(k), *final(k), *old(m), *final(m), arg0 as u64, arg1 as u64, arg2 as u64, arg3 as u64, arg4 as u64, res) && r == folded_word(res)),
        num == SYS_WAIT4 ==> (exists|res: Result<i64, Errno>| #[trigger] wait4_post(*old(k), *final(k), *old(m), *final(m), arg0 as i32, arg1 as u64, res) && r == folded_word(res)),
        num == SYS_GETPID ==> r == Control::Return(old(k).procs.current().pid as i64)
            && *final(k) == *old(k) && *final(m) == *old(m),
        num == SYS_GETPPID ==> r == Control::Return(old(k).procs.current().ppid as i64)
            && *final(k) == *old(k) && *final(m) == *old(m),
        num == SYS_MMAP ==> *final(m) == *old(m) && (exists|res: Result<i64, Errno>| #[trigger] mmap_post(*old(k), *final(k), arg1 as u64, arg2 as i32, res) && r == folded_word(res)),
        num == SYS_MUNMAP ==> *final(m) == *old(m) && (exists|res: Result<i64, Errno>| #[trigger] munmap_post(*old(k), *final(k), arg0 as u64, arg1 as u64, res) && r == folded_word(res)),
        num == SYS_MREMAP ==> *final(m) == *old(m) && (exists|res: Result<i64, Errno>| #[trigger] mremap_post(*old(k), *final(k), arg0 as u64, arg1 as u64, arg2 as u64, res) && r == folded_word(res)),
        num == SYS_BRK ==> *final(m) == *old(m) && (exists|res: Result<i64, Errno>| #[trigger] brk_post(*old(k), *final(k), arg0 as u64, res) && r == folded_word(res)),
        num == SYS_PIPE ==> (exists|res: Result<i64, Errno>| #[trigger] pipe2_post(*old(k), *final(k), *old(m), *final(m), arg0 as u64, res) && r == folded_word(res)),
        num == SYS_PIPE2 ==> (exists|res: Result<i64, Errno>| #[trigger] pipe2_post(*old(k), *final(k), *old(m), *final(m), arg0 as u64, res) && r == folded_word(res)),
        num == SYS_DUP ==> *final(m) == *old(m) && (exists|res: Result<i64, Errno>| #[trigger] dup_post(*old(k), *final(k), arg0 as u32, res) && r == folded_word(res)),
        num == SYS_DUP2 ==> *final(m) == *old(m) && (exists|res: Result<i64, Errno>| #[trigger] dup2_post(*old(k), *final(k), arg0 as u32, arg1 as u32, res) && r == folded_word(res)),
        num == SYS_DUP3 ==> *final(m) == *old(m) && (exists|res: Result<i64, Errno>| #[trigger] dup3_post(*old(k), *final(k), arg0 as u32, arg1 as u32, res) && r == folded_word(res)),
        num == SYS_GETTIMEOFDAY ==> *final(k) == *old(k) && (exists|res: Result<i64, Errno>| #[trigger] gtod_post(*old(k), *old(m), *final(m), arg0 as u64, res) && r == folded_word(res)),
{
    let ret: Result<i64, Errno> = if num == SYS_OPEN {
        do_open(k, &*m, arg0 as u64, arg1 as u32, arg2 as u32)
    } else if num == SYS_CLOSE {
        do_close(k, arg0 as u32)
    } else if num == SYS_READ {
        do_read(k, m, arg0 as u32, arg1 as u64, arg2 as u64)
    } else if num == SYS_WRITE {
        do_write(k, &*m, arg0 as u32, arg1 as u64, arg2 as u64)
    } else if num == SYS_READV {
        do_readv(k, m, arg0 as u32, arg1 as u64, arg2 as i32)
    } else if num == SYS_WRITEV {
        do_writev(k, &*m, arg0 as u32, arg1 as u64, arg2 as i32)
    } else if num == SYS_STAT {
        do_stat(&*k, m, arg0 as u64, arg1 as u64)
    } else if num == SYS_FSTAT {
        do_fstat(&*k, m, arg0 as u32, arg1 as u64)
    } else if num == SYS_LSTAT {
        do_lstat(&*k, m, arg0 as u64, arg1 as u64)
    } else if num == SYS_LSEEK {
        do_lseek(k, arg0 as u32, arg1, arg2 as i32)
    } else if num == SYS_FSYNC {
        do_fsync(&*k, arg0 as u32)
    } else if num == SYS_FDATASYNC {
        do_fdatasync(&*k, arg0 as u32)
    } else if num == SYS_TRUNCATE {
        do_truncate(k, &*m, arg0 as u64, arg1 as u64)
    } else if num == SYS_FTRUNCATE {
        do_ftruncate(k, arg0 as u32, arg1 as u64)
    } else if num == SYS_GETDENTS64 {
        do_getdents64(&*k, m, arg0 as u32, arg1 as u64, arg2 as u64)
    } else if num == SYS_SYNC {
        do_sync(&*k)
    } else if num == SYS_GETCWD {
        do_getcwd(&*k, m, arg0 as u64, arg1 as u64)
    } else if num == SYS_EXIT {
        do_exit(k, arg0 as i32);
        return Control::Terminate(arg0 as i32);
    } else if num == SYS_SPAWN {
        do_spawn(k, m, arg0 as u64, arg1 as u64, arg2 as u64, arg3 as u64, arg4 as u64)
    } else if num == SYS_WAIT4 {
        do_wait4(k, m, arg0 as i32, arg1 as u64)
    } else if num == SYS_GETPID {
        do_getpid(&*k)
    } else if num == SYS_GETPPID {
        do_getppid(&*k)
    } else if num == SYS_MMAP {
        do_mmap(k, arg0 as u64, arg1 as u64, arg2 as i32, arg3 as i32, arg4 as u32, arg5)
    } else if num == SYS_MUNMAP {
        do_munmap(k, arg0 as u64, arg1 as u64)
    } else if num == SYS_MREMAP {
        do_mremap(k, arg0 as u64, arg1 as u64, arg2 as u64, arg3 as i32, arg4 as u64)
    } else if num == SYS_BRK {
        do_brk(k, arg0 as u64)
    } else if num == SYS_PIPE {
        do_pipe2(k, m, arg0 as u64, 0)
    } else if num == SYS_PIPE2 {
        do_pipe2(k, m, arg0 as u64, arg1 as u32)
    } else if num == SYS_DUP {
        do_dup(k, arg0 as u32)
    } else if num == SYS_DUP2 {
        do_dup2(k, arg0 as u32, arg1 as u32)
    } else if num == SYS_DUP3 {
        do_dup3(k, arg0 as u32, arg1 as u32, arg2 as u32)
    } else if num == SYS_GETTIMEOFDAY {
        do_gettimeofday(&*k, m, arg0 as u64)
    } else {
        do_unknown(num)
    };
    match ret {
        Ok(code) => Control::Return(code),
        Err(e) => Control::Return(as_retval(e)),
    }
}

} // verus!
