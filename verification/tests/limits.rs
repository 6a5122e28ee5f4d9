use libos_syscall::errno::Errno;
use libos_syscall::kernel::Kernel;
use libos_syscall::syscall::{
    dispatch_syscall, Control, SYS_DUP, SYS_LSEEK, SYS_MMAP, SYS_OPEN, SYS_PIPE2, SYS_WRITE,
};
use libos_syscall::umem::UserMem;

fn sys(k: &mut Kernel, m: &mut UserMem, num: u32, a: [i64; 6]) -> i64 {
    match dispatch_syscall(k, m, num, a[0], a[1], a[2], a[3], a[4], a[5]) {
        Control::Return(v) => v,
        Control::Terminate(_) => panic!("unexpected terminate"),
    }
}

fn give(m: &mut UserMem, addr: u64, data: &[u8], write: bool) {
    m.allow(addr, data.len() as u64, write);
    m.poke(addr, &data.to_vec());
}

#[test]
fn write_past_the_size_limit_is_efbig() {
    let (mut k, mut m) = (Kernel::boot(), UserMem::new(4096));
    give(&mut m, 100, b"/big\0", false);
    let fd = sys(&mut k, &mut m, SYS_OPEN, [100, 0o100, 0, 0, 0, 0]);
    // seeking to the size limit itself is allowed
    assert_eq!(sys(&mut k, &mut m, SYS_LSEEK, [fd, 0x4000_0000, 0, 0, 0, 0]), 0x4000_0000);
    give(&mut m, 200, b"x", false);
    assert_eq!(sys(&mut k, &mut m, SYS_WRITE, [fd, 200, 1, 0, 0, 0]), -27);
}

#[test]
fn seek_past_the_size_limit_is_eoverflow() {
    let (mut k, mut m) = (Kernel::boot(), UserMem::new(4096));
    give(&mut m, 100, b"/big\0", false);
    let fd = sys(&mut k, &mut m, SYS_OPEN, [100, 0o100, 0, 0, 0, 0]);
    assert_eq!(sys(&mut k, &mut m, SYS_LSEEK, [fd, 0x4000_0001, 0, 0, 0, 0]), -75);
    assert_eq!(sys(&mut k, &mut m, SYS_LSEEK, [fd, 0x4000_0001, 2, 0, 0, 0]), -75);
}

#[test]
fn mapping_more_than_the_range_is_enomem() {
    let (mut k, mut m) = (Kernel::boot(), UserMem::new(4096));
    assert_eq!(sys(&mut k, &mut m, SYS_MMAP, [0, 0x7000_0001, 3, 0, 0, 0]), -12);
    assert_eq!(k.vm.areas.len(), 0);
}

#[test]
fn finishing_an_unknown_process_is_esrch() {
    let mut k = Kernel::boot();
    assert_eq!(k.procs.finish_child(99, 0), Err(Errno::ESRCH));
}

#[test]
fn a_full_descriptor_table_is_enfile() {
    let (mut k, mut m) = (Kernel::boot(), UserMem::new(4096));
    give(&mut m, 100, b"/one\0", false);
    let fd = sys(&mut k, &mut m, SYS_OPEN, [100, 0o100, 0, 0, 0, 0]);
    let mut last = fd;
    for _ in 1..1024 {
        last = sys(&mut k, &mut m, SYS_DUP, [fd, 0, 0, 0, 0, 0]);
        assert!(last >= 0);
    }
    assert_eq!(last, 1023);
    assert_eq!(sys(&mut k, &mut m, SYS_DUP, [fd, 0, 0, 0, 0, 0]), -23);
    m.allow(500, 8, true);
    assert_eq!(sys(&mut k, &mut m, SYS_PIPE2, [500, 0, 0, 0, 0, 0]), -23);
    assert_eq!(k.fs.pipes.len(), 0);
}
