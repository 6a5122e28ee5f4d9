use libos_syscall::kernel::Kernel;
use libos_syscall::process::{wait_filter, ChildProcessFilter};
use libos_syscall::syscall::{dispatch_syscall, Control, SYS_OPEN, SYS_SPAWN, SYS_WAIT4};
use libos_syscall::umem::UserMem;

fn sys(k: &mut Kernel, m: &mut UserMem, num: u32, a: [i64; 6]) -> i64 {
    match dispatch_syscall(k, m, num, a[0], a[1], a[2], a[3], a[4], a[5]) {
        Control::Return(v) => v,
        Control::Terminate(_) => panic!("unexpected terminate"),
    }
}

fn give(m: &mut UserMem, addr: u64, data: &[u8], write: bool) {
    m.allow(addr, data.len() as u64, write);
    m.poke(addr, &data.to_vec());
}

/// One foreign action record in its fixed 48-byte layout.
fn fdop_record(next: u64, cmd: u32, fd: u32, srcfd: u32) -> Vec<u8> {
    let mut b = Vec::new();
    b.extend_from_slice(&0u64.to_le_bytes()); // prev
    b.extend_from_slice(&next.to_le_bytes());
    b.extend_from_slice(&cmd.to_le_bytes());
    b.extend_from_slice(&fd.to_le_bytes());
    b.extend_from_slice(&srcfd.to_le_bytes());
    b.extend_from_slice(&0u32.to_le_bytes()); // oflag
    b.extend_from_slice(&0u32.to_le_bytes()); // mode
    b.extend_from_slice(&0u32.to_le_bytes()); // padding
    b.extend_from_slice(&0u64.to_le_bytes()); // path
    assert_eq!(b.len(), 48);
    b
}

/// Caller memory holding a minimal spawn request; returns the six words.
fn spawn_setup(m: &mut UserMem, action_head: u64) -> [i64; 6] {
    m.allow(50, 4, true); // pid out
    give(m, 100, b"/bin/app\0", false);
    // argv: one pointer to a string, then NULL
    give(m, 200, b"app\0", false);
    let mut argv = Vec::new();
    argv.extend_from_slice(&200u64.to_le_bytes());
    argv.extend_from_slice(&0u64.to_le_bytes());
    give(m, 300, &argv, false);
    // envp: NULL right away
    give(m, 400, &0u64.to_le_bytes(), false);
    [50, 100, 300, 400, action_head as i64, 0]
}

#[test]
fn wait_filter_maps_the_four_pid_ranges() {
    assert_eq!(wait_filter(-5, 9), ChildProcessFilter::WithPGID(5));
    assert_eq!(wait_filter(-1, 9), ChildProcessFilter::WithAnyPID);
    assert_eq!(wait_filter(0, 9), ChildProcessFilter::WithPGID(9));
    assert_eq!(wait_filter(7, 9), ChildProcessFilter::WithPID(7));
    assert_eq!(wait_filter(i32::MIN, 9), ChildProcessFilter::WithPGID(0x8000_0000));
}

#[test]
fn spawn_with_open_action_creates_nothing() {
    let (mut k, mut m) = (Kernel::boot(), UserMem::new(65536));
    give(&mut m, 4000, b"/tmp/x\0", false);
    let fd = sys(&mut k, &mut m, SYS_OPEN, [4000, 0o100, 0, 0, 0, 0]);
    assert!(fd >= 0);
    let rec = fdop_record(0, 3, 0, 0); // open-kind command
    give(&mut m, 1000, &rec, false);
    let args = spawn_setup(&mut m, 1000);
    let procs_before = k.procs.procs.len();
    let table_before = k.fs.table.len();
    assert_eq!(sys(&mut k, &mut m, SYS_SPAWN, args), -22);
    // no new pid is observable, the parent's descriptor table is unchanged,
    // and the pid out-slot was never written
    assert_eq!(k.procs.procs.len(), procs_before);
    assert_eq!(k.fs.table.len(), table_before);
    assert_eq!(m.peek(50, 4), vec![0, 0, 0, 0]);
}

#[test]
fn spawn_with_unknown_action_creates_nothing() {
    let (mut k, mut m) = (Kernel::boot(), UserMem::new(65536));
    let rec = fdop_record(0, 99, 0, 0);
    give(&mut m, 1000, &rec, false);
    let args = spawn_setup(&mut m, 1000);
    let procs_before = k.procs.procs.len();
    assert_eq!(sys(&mut k, &mut m, SYS_SPAWN, args), -22);
    assert_eq!(k.procs.procs.len(), procs_before);
    assert_eq!(m.peek(50, 4), vec![0, 0, 0, 0]);
}

#[test]
fn spawn_with_unreadable_action_node_faults() {
    let (mut k, mut m) = (Kernel::boot(), UserMem::new(65536));
    let args = spawn_setup(&mut m, 1000); // node memory never granted
    assert_eq!(sys(&mut k, &mut m, SYS_SPAWN, args), -14);
    assert_eq!(k.procs.procs.len(), 1);
}

#[test]
fn spawn_cyclic_action_list_is_bounded() {
    let (mut k, mut m) = (Kernel::boot(), UserMem::new(65536));
    give(&mut m, 4000, b"/tmp/x\0", false);
    let fd = sys(&mut k, &mut m, SYS_OPEN, [4000, 0o100, 0, 0, 0, 0]) as u32;
    let rec = fdop_record(1000, 1, fd, 0); // close action chaining to itself
    give(&mut m, 1000, &rec, false);
    let args = spawn_setup(&mut m, 1000);
    assert_eq!(sys(&mut k, &mut m, SYS_SPAWN, args), -36);
    assert_eq!(k.procs.procs.len(), 1);
}

#[test]
fn spawn_then_wait_reaps_the_child() {
    let (mut k, mut m) = (Kernel::boot(), UserMem::new(65536));
    give(&mut m, 4000, b"/tmp/x\0", false);
    let fd = sys(&mut k, &mut m, SYS_OPEN, [4000, 0o100, 0, 0, 0, 0]) as u32;
    let rec = fdop_record(0, 1, fd, 0); // the child closes its copy
    give(&mut m, 1000, &rec, false);
    let args = spawn_setup(&mut m, 1000);
    assert_eq!(sys(&mut k, &mut m, SYS_SPAWN, args), 0);
    let child = u32::from_le_bytes(m.peek(50, 4).try_into().unwrap());
    assert_eq!(child, 2);
    assert_eq!(k.procs.procs.len(), 2);
    // waiting now would block: the child still runs
    m.allow(60, 4, true);
    assert_eq!(sys(&mut k, &mut m, SYS_WAIT4, [-1, 60, 0, 0, 0, 0]), -11);
    // the child terminates with status 42; the wait then reaps it
    k.procs.finish_child(child, 42).unwrap();
    assert_eq!(sys(&mut k, &mut m, SYS_WAIT4, [-1, 60, 0, 0, 0, 0]), 2);
    assert_eq!(m.peek(60, 4), 42u32.to_le_bytes().to_vec());
    // a second wait finds nothing left
    assert_eq!(sys(&mut k, &mut m, SYS_WAIT4, [-1, 60, 0, 0, 0, 0]), -10);
}

#[test]
fn wait_selects_by_exact_pid_and_by_group() {
    let (mut k, mut m) = (Kernel::boot(), UserMem::new(65536));
    let args = spawn_setup(&mut m, 0); // empty action list
    assert_eq!(sys(&mut k, &mut m, SYS_SPAWN, args), 0);
    let first = u32::from_le_bytes(m.peek(50, 4).try_into().unwrap());
    assert_eq!(sys(&mut k, &mut m, SYS_SPAWN, args), 0);
    let second = u32::from_le_bytes(m.peek(50, 4).try_into().unwrap());
    assert_ne!(first, second);
    k.procs.finish_child(first, 1).unwrap();
    k.procs.finish_child(second, 2).unwrap();
    m.allow(60, 4, true);
    // exact pid selects the second child even though the first exited first
    assert_eq!(sys(&mut k, &mut m, SYS_WAIT4, [second as i64, 60, 0, 0, 0, 0]), second as i64);
    assert_eq!(m.peek(60, 4), 2u32.to_le_bytes().to_vec());
    // pid 0 selects the caller's own group, which both children inherited
    assert_eq!(sys(&mut k, &mut m, SYS_WAIT4, [0, 60, 0, 0, 0, 0]), first as i64);
    // both children are reaped: any-child can never match again
    assert_eq!(sys(&mut k, &mut m, SYS_WAIT4, [-1i64, 60, 0, 0, 0, 0]), -10);
    // a pid below -1 names the group of its magnitude; group 5 never existed
    assert_eq!(sys(&mut k, &mut m, SYS_WAIT4, [-5i64, 60, 0, 0, 0, 0]), -10);
    // an unrelated exact pid can never match
    assert_eq!(sys(&mut k, &mut m, SYS_WAIT4, [500, 60, 0, 0, 0, 0]), -10);
}

#[test]
fn wait_with_null_status_pointer_is_accepted() {
    let (mut k, mut m) = (Kernel::boot(), UserMem::new(65536));
    let args = spawn_setup(&mut m, 0);
    assert_eq!(sys(&mut k, &mut m, SYS_SPAWN, args), 0);
    let child = u32::from_le_bytes(m.peek(50, 4).try_into().unwrap());
    k.procs.finish_child(child, 9).unwrap();
    assert_eq!(sys(&mut k, &mut m, SYS_WAIT4, [-1, 0, 0, 0, 0, 0]), child as i64);
}

#[test]
fn wait_with_unowned_status_pointer_faults() {
    let (mut k, mut m) = (Kernel::boot(), UserMem::new(65536));
    assert_eq!(sys(&mut k, &mut m, SYS_WAIT4, [-1, 123, 0, 0, 0, 0]), -14);
}

#[test]
fn spawn_with_unowned_pid_pointer_faults() {
    let (mut k, mut m) = (Kernel::boot(), UserMem::new(65536));
    let mut args = spawn_setup(&mut m, 0);
    args[0] = 7000; // never granted to the caller
    assert_eq!(sys(&mut k, &mut m, SYS_SPAWN, args), -14);
    assert_eq!(k.procs.procs.len(), 1);
}
