use libos_syscall::errno::{as_retval, Errno};
use libos_syscall::kernel::Kernel;
use libos_syscall::syscall::{
    dispatch_syscall, Control, SYS_BRK, SYS_CLOSE, SYS_DUP, SYS_DUP2, SYS_DUP3, SYS_EXIT,
    SYS_FDATASYNC, SYS_FSTAT, SYS_FSYNC, SYS_FTRUNCATE, SYS_GETCWD, SYS_GETDENTS64, SYS_GETPID,
    SYS_GETPPID, SYS_GETTIMEOFDAY, SYS_LSEEK, SYS_MMAP, SYS_MREMAP, SYS_MUNMAP, SYS_OPEN,
    SYS_PIPE2, SYS_READ, SYS_READV, SYS_SPAWN, SYS_STAT, SYS_SYNC, SYS_TRUNCATE, SYS_WAIT4,
    SYS_WRITE, SYS_WRITEV,
};
use libos_syscall::umem::UserMem;

fn boot(size: usize) -> (Kernel, UserMem) {
    (Kernel::boot(), UserMem::new(size))
}

fn sys(k: &mut Kernel, m: &mut UserMem, num: u32, a: [i64; 6]) -> i64 {
    match dispatch_syscall(k, m, num, a[0], a[1], a[2], a[3], a[4], a[5]) {
        Control::Return(v) => v,
        Control::Terminate(_) => panic!("unexpected terminate"),
    }
}

/// Grant the caller a readable/writable range and fill it.
fn give(m: &mut UserMem, addr: u64, data: &[u8], write: bool) {
    m.allow(addr, data.len() as u64, write);
    m.poke(addr, &data.to_vec());
}

#[test]
fn unknown_id_returns_enosys_and_touches_nothing() {
    let (mut k, mut m) = boot(4096);
    let before_fds = k.fs.table.len();
    let before_procs = k.procs.procs.len();
    let r = sys(&mut k, &mut m, 999, [1, 2, 3, 4, 5, 6]);
    assert_eq!(r, -38);
    assert_eq!(k.fs.table.len(), before_fds);
    assert_eq!(k.procs.procs.len(), before_procs);
    assert_eq!(k.fs.files.len(), 0);
}

#[test]
fn errno_words_are_negative_and_fixed() {
    assert_eq!(as_retval(Errno::ENOSYS), -38);
    assert_eq!(as_retval(Errno::EFAULT), -14);
    assert_eq!(as_retval(Errno::EINVAL), -22);
    assert_eq!(as_retval(Errno::ERANGE), -34);
    assert_eq!(as_retval(Errno::ECHILD), -10);
    assert_eq!(as_retval(Errno::ENAMETOOLONG), -36);
}

#[test]
fn open_write_lseek_read_roundtrip() {
    let (mut k, mut m) = boot(65536);
    give(&mut m, 100, b"/tmp/a\0", false);
    let fd = sys(&mut k, &mut m, SYS_OPEN, [100, 0o100, 0o644, 0, 0, 0]);
    assert!(fd >= 0);
    give(&mut m, 200, b"hello", false);
    let n = sys(&mut k, &mut m, SYS_WRITE, [fd, 200, 5, 0, 0, 0]);
    assert_eq!(n, 5);
    let p = sys(&mut k, &mut m, SYS_LSEEK, [fd, 0, 0, 0, 0, 0]);
    assert_eq!(p, 0);
    m.allow(300, 16, true);
    let n = sys(&mut k, &mut m, SYS_READ, [fd, 300, 16, 0, 0, 0]);
    assert_eq!(n, 5);
    assert_eq!(m.peek(300, 5), b"hello".to_vec());
    assert_eq!(sys(&mut k, &mut m, SYS_CLOSE, [fd, 0, 0, 0, 0, 0]), 0);
}

#[test]
fn open_without_create_bit_fails_enoent() {
    let (mut k, mut m) = boot(4096);
    give(&mut m, 100, b"/absent\0", false);
    assert_eq!(sys(&mut k, &mut m, SYS_OPEN, [100, 0, 0, 0, 0, 0]), -2);
    assert_eq!(k.fs.files.len(), 0);
}

#[test]
fn open_unreadable_path_faults() {
    let (mut k, mut m) = boot(4096);
    // path bytes exist but the caller does not own them
    m.poke(100, &b"/tmp/a\0".to_vec());
    assert_eq!(sys(&mut k, &mut m, SYS_OPEN, [100, 0o100, 0, 0, 0, 0]), -14);
    assert_eq!(k.fs.table.len(), 0);
}

#[test]
fn unterminated_path_reports_length_error() {
    let (mut k, mut m) = boot(8192);
    let run = vec![b'a'; 4100];
    give(&mut m, 100, &run, false);
    assert_eq!(sys(&mut k, &mut m, SYS_OPEN, [100, 0o100, 0, 0, 0, 0]), -36);
}

#[test]
fn read_into_unowned_buffer_faults_and_writes_nothing() {
    let (mut k, mut m) = boot(4096);
    give(&mut m, 100, b"/f\0", false);
    let fd = sys(&mut k, &mut m, SYS_OPEN, [100, 0o100, 0, 0, 0, 0]);
    give(&mut m, 200, b"xy", false);
    assert_eq!(sys(&mut k, &mut m, SYS_WRITE, [fd, 200, 2, 0, 0, 0]), 2);
    // target range is readable only, not writable
    give(&mut m, 300, &[7u8; 8], false);
    let before = m.peek(300, 8);
    assert_eq!(sys(&mut k, &mut m, SYS_READ, [fd, 300, 8, 0, 0, 0]), -14);
    assert_eq!(m.peek(300, 8), before);
}

#[test]
fn write_from_unowned_buffer_faults() {
    let (mut k, mut m) = boot(4096);
    give(&mut m, 100, b"/f\0", false);
    let fd = sys(&mut k, &mut m, SYS_OPEN, [100, 0o100, 0, 0, 0, 0]);
    m.poke(200, &b"secret".to_vec());
    assert_eq!(sys(&mut k, &mut m, SYS_WRITE, [fd, 200, 6, 0, 0, 0]), -14);
    let st = 400u64;
    m.allow(st, 16, true);
    assert_eq!(sys(&mut k, &mut m, SYS_FSTAT, [fd, st as i64, 0, 0, 0, 0]), 0);
    // the file kept its old size: nothing was transferred
    assert_eq!(m.peek(st, 8), 0u64.to_le_bytes().to_vec());
}

#[test]
fn read_from_bad_descriptor() {
    let (mut k, mut m) = boot(4096);
    m.allow(300, 4, true);
    assert_eq!(sys(&mut k, &mut m, SYS_READ, [5, 300, 4, 0, 0, 0]), -9);
}

#[test]
fn lseek_absolute_negative_is_rejected_before_the_filesystem() {
    let (mut k, mut m) = boot(4096);
    give(&mut m, 100, b"/f\0", false);
    let fd = sys(&mut k, &mut m, SYS_OPEN, [100, 0o100, 0, 0, 0, 0]);
    let before = k.fs.files.len();
    assert_eq!(sys(&mut k, &mut m, SYS_LSEEK, [fd, -3, 0, 0, 0, 0]), -22);
    assert_eq!(k.fs.files.len(), before);
    // the descriptor's offset did not move: a write still lands at 0
    give(&mut m, 200, b"z", false);
    assert_eq!(sys(&mut k, &mut m, SYS_WRITE, [fd, 200, 1, 0, 0, 0]), 1);
}

#[test]
fn lseek_bad_whence_and_pipe_seek() {
    let (mut k, mut m) = boot(4096);
    give(&mut m, 100, b"/f\0", false);
    let fd = sys(&mut k, &mut m, SYS_OPEN, [100, 0o100, 0, 0, 0, 0]);
    assert_eq!(sys(&mut k, &mut m, SYS_LSEEK, [fd, 0, 7, 0, 0, 0]), -22);
    m.allow(500, 8, true);
    assert_eq!(sys(&mut k, &mut m, SYS_PIPE2, [500, 0, 0, 0, 0, 0]), 0);
    let rfd = i32::from_le_bytes(m.peek(500, 4).try_into().unwrap()) as i64;
    assert_eq!(sys(&mut k, &mut m, SYS_LSEEK, [rfd, 0, 1, 0, 0, 0]), -29);
}

#[test]
fn lseek_relative_and_from_end() {
    let (mut k, mut m) = boot(4096);
    give(&mut m, 100, b"/f\0", false);
    let fd = sys(&mut k, &mut m, SYS_OPEN, [100, 0o100, 0, 0, 0, 0]);
    give(&mut m, 200, b"abcdef", false);
    assert_eq!(sys(&mut k, &mut m, SYS_WRITE, [fd, 200, 6, 0, 0, 0]), 6);
    assert_eq!(sys(&mut k, &mut m, SYS_LSEEK, [fd, -2, 1, 0, 0, 0]), 4);
    assert_eq!(sys(&mut k, &mut m, SYS_LSEEK, [fd, -6, 2, 0, 0, 0]), 0);
    assert_eq!(sys(&mut k, &mut m, SYS_LSEEK, [fd, -7, 2, 0, 0, 0]), -22);
}

#[test]
fn writev_transfers_in_array_order_and_reports_the_sum() {
    let (mut k, mut m) = boot(65536);
    give(&mut m, 100, b"/v\0", false);
    let fd = sys(&mut k, &mut m, SYS_OPEN, [100, 0o100, 0, 0, 0, 0]);
    give(&mut m, 200, b"ab", false);
    give(&mut m, 300, b"cde", false);
    let mut iov = Vec::new();
    iov.extend_from_slice(&200u64.to_le_bytes());
    iov.extend_from_slice(&2u64.to_le_bytes());
    iov.extend_from_slice(&300u64.to_le_bytes());
    iov.extend_from_slice(&3u64.to_le_bytes());
    give(&mut m, 400, &iov, false);
    let n = sys(&mut k, &mut m, SYS_WRITEV, [fd, 400, 2, 0, 0, 0]);
    assert_eq!(n, 5);
    assert_eq!(sys(&mut k, &mut m, SYS_LSEEK, [fd, 0, 0, 0, 0, 0]), 0);
    m.allow(500, 8, true);
    assert_eq!(sys(&mut k, &mut m, SYS_READ, [fd, 500, 8, 0, 0, 0]), 5);
    assert_eq!(m.peek(500, 5), b"abcde".to_vec());
}

#[test]
fn writev_negative_count_is_invalid() {
    let (mut k, mut m) = boot(4096);
    give(&mut m, 100, b"/v\0", false);
    let fd = sys(&mut k, &mut m, SYS_OPEN, [100, 0o100, 0, 0, 0, 0]);
    assert_eq!(sys(&mut k, &mut m, SYS_WRITEV, [fd, 400, -1, 0, 0, 0]), -22);
    assert_eq!(sys(&mut k, &mut m, SYS_READV, [fd, 400, -4, 0, 0, 0]), -22);
}

#[test]
fn readv_scatters_in_array_order() {
    let (mut k, mut m) = boot(65536);
    give(&mut m, 100, b"/v\0", false);
    let fd = sys(&mut k, &mut m, SYS_OPEN, [100, 0o100, 0, 0, 0, 0]);
    give(&mut m, 200, b"abcdef", false);
    assert_eq!(sys(&mut k, &mut m, SYS_WRITE, [fd, 200, 6, 0, 0, 0]), 6);
    assert_eq!(sys(&mut k, &mut m, SYS_LSEEK, [fd, 0, 0, 0, 0, 0]), 0);
    m.allow(600, 2, true);
    m.allow(700, 4, true);
    let mut iov = Vec::new();
    iov.extend_from_slice(&600u64.to_le_bytes());
    iov.extend_from_slice(&2u64.to_le_bytes());
    iov.extend_from_slice(&700u64.to_le_bytes());
    iov.extend_from_slice(&4u64.to_le_bytes());
    give(&mut m, 800, &iov, false);
    let n = sys(&mut k, &mut m, SYS_READV, [fd, 800, 2, 0, 0, 0]);
    assert_eq!(n, 6);
    assert_eq!(m.peek(600, 2), b"ab".to_vec());
    assert_eq!(m.peek(700, 4), b"cdef".to_vec());
}

#[test]
fn getcwd_needs_room_for_the_terminator() {
    let (mut k, mut m) = boot(4096);
    k.fs.set_cwd(&b"/work".to_vec());
    m.allow(100, 5, true);
    // exactly as long as the path: no room for the terminator
    assert_eq!(sys(&mut k, &mut m, SYS_GETCWD, [100, 5, 0, 0, 0, 0]), -34);
    m.allow(200, 6, true);
    assert_eq!(sys(&mut k, &mut m, SYS_GETCWD, [200, 6, 0, 0, 0, 0]), 0);
    assert_eq!(m.peek(200, 6), b"/work\0".to_vec());
}

#[test]
fn getcwd_unowned_buffer_faults() {
    let (mut k, mut m) = boot(4096);
    assert_eq!(sys(&mut k, &mut m, SYS_GETCWD, [100, 64, 0, 0, 0, 0]), -14);
}

#[test]
fn pipe_ends_are_distinct_and_deliver_bytes_in_order() {
    let (mut k, mut m) = boot(4096);
    m.allow(500, 8, true);
    assert_eq!(sys(&mut k, &mut m, SYS_PIPE2, [500, 0, 0, 0, 0, 0]), 0);
    let rfd = i32::from_le_bytes(m.peek(500, 4).try_into().unwrap()) as i64;
    let wfd = i32::from_le_bytes(m.peek(504, 4).try_into().unwrap()) as i64;
    assert_ne!(rfd, wfd);
    give(&mut m, 600, b"ab", false);
    assert_eq!(sys(&mut k, &mut m, SYS_WRITE, [wfd, 600, 2, 0, 0, 0]), 2);
    give(&mut m, 700, b"c", false);
    assert_eq!(sys(&mut k, &mut m, SYS_WRITE, [wfd, 700, 1, 0, 0, 0]), 1);
    m.allow(800, 8, true);
    assert_eq!(sys(&mut k, &mut m, SYS_READ, [rfd, 800, 8, 0, 0, 0]), 3);
    assert_eq!(m.peek(800, 3), b"abc".to_vec());
    // reading the write end is an error
    m.allow(900, 1, true);
    assert_eq!(sys(&mut k, &mut m, SYS_READ, [wfd, 900, 1, 0, 0, 0]), -9);
}

#[test]
fn dup_family() {
    let (mut k, mut m) = boot(4096);
    give(&mut m, 100, b"/d\0", false);
    let fd = sys(&mut k, &mut m, SYS_OPEN, [100, 0o100, 0, 0, 0, 0]);
    let d = sys(&mut k, &mut m, SYS_DUP, [fd, 0, 0, 0, 0, 0]);
    assert!(d >= 0 && d != fd);
    assert_eq!(sys(&mut k, &mut m, SYS_DUP2, [fd, 9, 0, 0, 0, 0]), 9);
    assert_eq!(sys(&mut k, &mut m, SYS_DUP3, [fd, fd, 0, 0, 0, 0]), -22);
    assert_eq!(sys(&mut k, &mut m, SYS_DUP3, [fd, 11, 0, 0, 0, 0]), 11);
    assert_eq!(sys(&mut k, &mut m, SYS_DUP, [77, 0, 0, 0, 0, 0]), -9);
    // a dup shares the pipe it points at
    give(&mut m, 200, b"q", false);
    m.allow(500, 8, true);
    assert_eq!(sys(&mut k, &mut m, SYS_PIPE2, [500, 0, 0, 0, 0, 0]), 0);
    let rfd = i32::from_le_bytes(m.peek(500, 4).try_into().unwrap()) as i64;
    let wfd = i32::from_le_bytes(m.peek(504, 4).try_into().unwrap()) as i64;
    let wdup = sys(&mut k, &mut m, SYS_DUP, [wfd, 0, 0, 0, 0, 0]);
    assert_eq!(sys(&mut k, &mut m, SYS_WRITE, [wdup, 200, 1, 0, 0, 0]), 1);
    m.allow(600, 1, true);
    assert_eq!(sys(&mut k, &mut m, SYS_READ, [rfd, 600, 1, 0, 0, 0]), 1);
    assert_eq!(m.peek(600, 1), b"q".to_vec());
}

#[test]
fn stat_fstat_and_kinds() {
    let (mut k, mut m) = boot(4096);
    give(&mut m, 100, b"/s\0", false);
    let fd = sys(&mut k, &mut m, SYS_OPEN, [100, 0o100, 0, 0, 0, 0]);
    give(&mut m, 200, b"abcd", false);
    assert_eq!(sys(&mut k, &mut m, SYS_WRITE, [fd, 200, 4, 0, 0, 0]), 4);
    m.allow(300, 16, true);
    assert_eq!(sys(&mut k, &mut m, SYS_STAT, [100, 300, 0, 0, 0, 0]), 0);
    assert_eq!(m.peek(300, 8), 4u64.to_le_bytes().to_vec());
    assert_eq!(m.peek(308, 4), 1u32.to_le_bytes().to_vec());
    assert_eq!(sys(&mut k, &mut m, SYS_FSTAT, [fd, 300, 0, 0, 0, 0]), 0);
    assert_eq!(m.peek(300, 8), 4u64.to_le_bytes().to_vec());
    // lstat agrees with stat in this model
    assert_eq!(sys(&mut k, &mut m, 6, [100, 300, 0, 0, 0, 0]), 0);
    give(&mut m, 400, b"/missing\0", false);
    assert_eq!(sys(&mut k, &mut m, SYS_STAT, [400, 300, 0, 0, 0, 0]), -2);
}

#[test]
fn truncate_and_ftruncate() {
    let (mut k, mut m) = boot(4096);
    give(&mut m, 100, b"/t\0", false);
    let fd = sys(&mut k, &mut m, SYS_OPEN, [100, 0o100, 0, 0, 0, 0]);
    give(&mut m, 200, b"abcdef", false);
    assert_eq!(sys(&mut k, &mut m, SYS_WRITE, [fd, 200, 6, 0, 0, 0]), 6);
    assert_eq!(sys(&mut k, &mut m, SYS_TRUNCATE, [100, 3, 0, 0, 0, 0]), 0);
    m.allow(300, 16, true);
    assert_eq!(sys(&mut k, &mut m, SYS_FSTAT, [fd, 300, 0, 0, 0, 0]), 0);
    assert_eq!(m.peek(300, 8), 3u64.to_le_bytes().to_vec());
    assert_eq!(sys(&mut k, &mut m, SYS_FTRUNCATE, [fd, 8, 0, 0, 0, 0]), 0);
    assert_eq!(sys(&mut k, &mut m, SYS_LSEEK, [fd, 0, 0, 0, 0, 0]), 0);
    m.allow(400, 8, true);
    assert_eq!(sys(&mut k, &mut m, SYS_READ, [fd, 400, 8, 0, 0, 0]), 8);
    assert_eq!(m.peek(400, 8), b"abc\0\0\0\0\0".to_vec());
}

#[test]
fn getdents_reports_no_directories() {
    let (mut k, mut m) = boot(4096);
    give(&mut m, 100, b"/g\0", false);
    let fd = sys(&mut k, &mut m, SYS_OPEN, [100, 0o100, 0, 0, 0, 0]);
    m.allow(300, 64, true);
    assert_eq!(sys(&mut k, &mut m, SYS_GETDENTS64, [fd, 300, 64, 0, 0, 0]), -20);
    assert_eq!(sys(&mut k, &mut m, SYS_GETDENTS64, [55, 300, 64, 0, 0, 0]), -9);
}

#[test]
fn sync_family() {
    let (mut k, mut m) = boot(4096);
    give(&mut m, 100, b"/y\0", false);
    let fd = sys(&mut k, &mut m, SYS_OPEN, [100, 0o100, 0, 0, 0, 0]);
    assert_eq!(sys(&mut k, &mut m, SYS_FSYNC, [fd, 0, 0, 0, 0, 0]), 0);
    assert_eq!(sys(&mut k, &mut m, SYS_FDATASYNC, [fd, 0, 0, 0, 0, 0]), 0);
    assert_eq!(sys(&mut k, &mut m, SYS_FSYNC, [44, 0, 0, 0, 0, 0]), -9);
    assert_eq!(sys(&mut k, &mut m, SYS_SYNC, [0, 0, 0, 0, 0, 0]), 0);
}

#[test]
fn pids_and_exit() {
    let (mut k, mut m) = boot(4096);
    assert_eq!(sys(&mut k, &mut m, SYS_GETPID, [0, 0, 0, 0, 0, 0]), 1);
    assert_eq!(sys(&mut k, &mut m, SYS_GETPPID, [0, 0, 0, 0, 0, 0]), 0);
    let r = dispatch_syscall(&mut k, &mut m, SYS_EXIT, 7, 0, 0, 0, 0, 0);
    assert_eq!(r, Control::Terminate(7));
    assert!(!k.procs.procs[0].alive);
    assert_eq!(k.procs.procs[0].status, 7);
}

#[test]
fn memory_syscalls() {
    let (mut k, mut m) = boot(4096);
    let a = sys(&mut k, &mut m, SYS_MMAP, [0, 8192, 3, 0, 0, 0]);
    assert_eq!(a, 0x1000_0000);
    let b = sys(&mut k, &mut m, SYS_MMAP, [0, 4096, 3, 0, 0, 0]);
    assert_eq!(b, 0x1000_2000);
    assert_eq!(sys(&mut k, &mut m, SYS_MMAP, [0, 0, 3, 0, 0, 0]), -22);
    assert_eq!(sys(&mut k, &mut m, SYS_MUNMAP, [a, 8192, 0, 0, 0, 0]), 0);
    assert_eq!(sys(&mut k, &mut m, SYS_MUNMAP, [a, 8192, 0, 0, 0, 0]), -22);
    let c = sys(&mut k, &mut m, SYS_MREMAP, [b, 4096, 16384, 0, 0, 0]);
    assert!(c > b);
    assert_eq!(sys(&mut k, &mut m, SYS_MREMAP, [b, 4096, 16384, 0, 0, 0]), -14);
    let brk0 = sys(&mut k, &mut m, SYS_BRK, [0, 0, 0, 0, 0, 0]);
    assert_eq!(brk0, 0x0800_0000);
    let brk1 = sys(&mut k, &mut m, SYS_BRK, [0x0800_4000, 0, 0, 0, 0, 0]);
    assert_eq!(brk1, 0x0800_4000);
    assert_eq!(sys(&mut k, &mut m, SYS_BRK, [0, 0, 0, 0, 0, 0]), 0x0800_4000);
}

#[test]
fn gettimeofday_writes_the_clock() {
    let (mut k, mut m) = boot(4096);
    k.clock.advance(5, 250_000);
    m.allow(100, 16, true);
    assert_eq!(sys(&mut k, &mut m, SYS_GETTIMEOFDAY, [100, 0, 0, 0, 0, 0]), 0);
    assert_eq!(m.peek(100, 8), 5u64.to_le_bytes().to_vec());
    assert_eq!(m.peek(108, 8), 250_000u64.to_le_bytes().to_vec());
    assert_eq!(sys(&mut k, &mut m, SYS_GETTIMEOFDAY, [0, 0, 0, 0, 0, 0]), -14);
}

#[test]
fn wait_with_no_child_is_echild() {
    let (mut k, mut m) = boot(4096);
    m.allow(100, 4, true);
    assert_eq!(sys(&mut k, &mut m, SYS_WAIT4, [-1, 100, 0, 0, 0, 0]), -10);
}
