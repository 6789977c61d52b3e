//! Edge cases of the IPC protocol: closed receives, borrow failures,
//! misaddressed syscalls, and queue behaviour around faulting senders.

use kern::abi::{
    InterruptNum, InterruptOwner, RegionDesc, TaskDesc, TaskId, FIRST_DEAD_CODE, REGION_READ,
    REGION_WRITE, START_AT_BOOT,
};
use kern::interrupts::{IrqOwnerTable, TaskIrqTable};
use kern::ipc;
use kern::kernel::Kernel;
use kern::task::{NextTask, SchedState, TaskState};
use kern::umem::UserRam;

const RAM_BASE: u32 = 0x4000_0000;
const RAM_SIZE: u32 = 0x1000;

fn ram_region() -> RegionDesc {
    RegionDesc {
        base: RAM_BASE,
        size: RAM_SIZE,
        attributes: REGION_READ | REGION_WRITE,
    }
}

/// Supervisor (0, stopped), tasks A (1, prio 2), B (2, prio 3), C (3,
/// prio 3), idle (4, prio 7).
fn boot_kernel() -> Kernel {
    let mk = |index: u16, priority: u8, flags: u32| TaskDesc {
        entry_point: 0x2000_0000 + (index as u32) * 0x1000,
        initial_stack: RAM_BASE + 0x100 + (index as u32) * 0x40,
        priority,
        flags,
        index,
    };
    let descs = vec![
        mk(0, 0, 0),
        mk(1, 2, START_AT_BOOT),
        mk(2, 3, START_AT_BOOT),
        mk(3, 3, START_AT_BOOT),
        mk(4, 7, START_AT_BOOT),
    ];
    let rts = vec![vec![ram_region()]; 5];
    let ram = UserRam::new(RAM_BASE, RAM_SIZE);
    let irq_map = IrqOwnerTable::build(4, &vec![]).unwrap();
    let task_irq_map = TaskIrqTable::build(4, vec![]).unwrap();
    Kernel::new(descs, rts, ram, irq_map, task_irq_map).unwrap()
}

fn tid(index: u16, gen: u8) -> TaskId {
    TaskId::for_index_and_gen(index, gen)
}

fn do_send(
    k: &mut Kernel,
    caller: usize,
    target: TaskId,
    op: u16,
    out: (u32, u32),
) -> NextTask {
    k.current = caller;
    let s = &mut k.tasks[caller].save;
    s.a0 = ((target.0 as u32) << 16) | op as u32;
    s.a1 = out.0;
    s.a2 = out.1;
    s.a3 = 0;
    s.a4 = 0;
    s.a5 = 0;
    s.a6 = 0;
    ipc::sys_send(k)
}

fn do_recv(
    k: &mut Kernel,
    caller: usize,
    buf: (u32, u32),
    mask: u32,
    from: Option<TaskId>,
) -> NextTask {
    k.current = caller;
    let s = &mut k.tasks[caller].save;
    s.a0 = buf.0;
    s.a1 = buf.1;
    s.a2 = mask;
    s.a3 = match from {
        Some(t) => 0x8000_0000 | t.0 as u32,
        None => 0,
    };
    ipc::sys_recv(k)
}

#[test]
fn closed_recv_takes_only_the_named_sender() {
    let mut k = boot_kernel();
    let out_a = RAM_BASE + 0x900;
    let out_c = RAM_BASE + 0x940;
    let buf_b = RAM_BASE + 0x800;
    k.ram.write_bytes(out_a, &b"aa".to_vec());
    k.ram.write_bytes(out_c, &b"cc".to_vec());

    // A (better priority) and C both queue to B.
    do_send(&mut k, 1, tid(2, 0), 1, (out_a, 2));
    do_send(&mut k, 3, tid(2, 0), 2, (out_c, 2));

    // B asks specifically for C and gets C, not the better-placed A.
    let hint = do_recv(&mut k, 2, (buf_b, 8), 0, Some(tid(3, 0)));
    assert_eq!(hint, NextTask::Same);
    assert_eq!(k.tasks[2].save.a1, tid(3, 0).0 as u32);
    assert_eq!(k.ram.read_bytes(buf_b, 2), b"cc".to_vec());
    assert_eq!(
        k.tasks[3].state,
        TaskState::Healthy(SchedState::InReplyTo(tid(2, 0)))
    );
    // A still waits.
    assert_eq!(
        k.tasks[1].state,
        TaskState::Healthy(SchedState::InSendTo(tid(2, 0), false))
    );
}

#[test]
fn closed_recv_on_absent_sender_blocks_with_filter() {
    let mut k = boot_kernel();
    let hint = do_recv(&mut k, 2, (RAM_BASE + 0x800, 8), 0, Some(tid(1, 0)));
    assert_eq!(hint, NextTask::Other);
    assert_eq!(
        k.tasks[2].state,
        TaskState::Healthy(SchedState::InRecv(Some(tid(1, 0))))
    );

    // A send from the filtered task is accepted at once.
    let out_a = RAM_BASE + 0x900;
    k.ram.write_bytes(out_a, &b"hi".to_vec());
    let hint = do_send(&mut k, 1, tid(2, 0), 1, (out_a, 2));
    assert_eq!(hint, NextTask::Other);
    assert_eq!(k.tasks[2].state, TaskState::Healthy(SchedState::Runnable));
    assert_eq!(k.ram.read_bytes(RAM_BASE + 0x800, 2), b"hi".to_vec());
}

#[test]
fn closed_recv_filter_excludes_other_senders() {
    let mut k = boot_kernel();
    // B waits for A specifically; C's send must queue rather than land.
    do_recv(&mut k, 2, (RAM_BASE + 0x800, 8), 0, Some(tid(1, 0)));
    let hint = do_send(&mut k, 3, tid(2, 0), 2, (0, 0));
    assert_eq!(hint, NextTask::Other);
    assert_eq!(
        k.tasks[3].state,
        TaskState::Healthy(SchedState::InSendTo(tid(2, 0), false))
    );
    assert_eq!(
        k.tasks[2].state,
        TaskState::Healthy(SchedState::InRecv(Some(tid(1, 0))))
    );
}

#[test]
fn closed_recv_on_dead_generation_returns_dead_code() {
    let mut k = boot_kernel();
    kern::kernel::restart_task(&mut k, 1, true);
    // B names A at its old generation.
    let hint = do_recv(&mut k, 2, (RAM_BASE + 0x800, 8), 0, Some(tid(1, 0)));
    assert_eq!(hint, NextTask::Same);
    assert_eq!(k.tasks[2].save.a0, FIRST_DEAD_CODE | 1);
    assert_eq!(k.tasks[2].state, TaskState::Healthy(SchedState::Runnable));
}

#[test]
fn open_recv_skips_faulting_sender_and_takes_the_next() {
    let mut k = boot_kernel();
    let out_c = RAM_BASE + 0x940;
    let buf_b = RAM_BASE + 0x800;
    k.ram.write_bytes(out_c, &b"ok".to_vec());

    // A queues first with an unreadable buffer, then C with a good one.
    // A's better priority makes it the first pick.
    do_send(&mut k, 1, tid(2, 0), 1, (0x5000_0000, 4));
    do_send(&mut k, 3, tid(2, 0), 2, (out_c, 2));

    let hint = do_recv(&mut k, 2, (buf_b, 8), 0, None);
    // The bad sender is faulted, the good one is delivered.
    assert_eq!(hint, NextTask::Same);
    assert!(matches!(k.tasks[1].state, TaskState::Faulted { .. }));
    assert_eq!(k.tasks[2].save.a1, tid(3, 0).0 as u32);
    assert_eq!(k.ram.read_bytes(buf_b, 2), b"ok".to_vec());
    assert_eq!(
        k.tasks[3].state,
        TaskState::Healthy(SchedState::InReplyTo(tid(2, 0)))
    );
}

#[test]
fn send_to_out_of_range_index_faults_caller() {
    let mut k = boot_kernel();
    let hint = do_send(&mut k, 1, TaskId(900), 1, (0, 0));
    assert_eq!(hint, NextTask::Other);
    match k.tasks[1].state {
        TaskState::Faulted { fault, .. } => assert_eq!(
            fault,
            kern::abi::FaultInfo::SyscallUsage(kern::abi::UsageError::TaskOutOfRange)
        ),
        _ => panic!("caller should be faulted"),
    }
}

#[test]
fn send_to_self_faults_caller() {
    let mut k = boot_kernel();
    let hint = do_send(&mut k, 1, tid(1, 0), 1, (0, 0));
    assert_eq!(hint, NextTask::Other);
    match k.tasks[1].state {
        TaskState::Faulted { fault, .. } => assert_eq!(
            fault,
            kern::abi::FaultInfo::SyscallUsage(kern::abi::UsageError::IllegalTask)
        ),
        _ => panic!("caller should be faulted"),
    }
}

fn borrow_read(k: &mut Kernel, caller: usize, lender: TaskId, index: u32, offset: u32, dest: (u32, u32)) -> NextTask {
    k.current = caller;
    let s = &mut k.tasks[caller].save;
    s.a0 = lender.0 as u32;
    s.a1 = index;
    s.a2 = offset;
    s.a3 = dest.0;
    s.a4 = dest.1;
    ipc::sys_borrow_read(k)
}

#[test]
fn borrow_from_lender_not_waiting_reports_went_away() {
    let mut k = boot_kernel();
    let hint = borrow_read(&mut k, 2, tid(1, 0), 0, 0, (RAM_BASE + 0x800, 4));
    assert_eq!(hint, NextTask::Same);
    assert_eq!(k.tasks[2].save.a0, ipc::BORROW_WENT_AWAY);
    assert_eq!(k.tasks[2].save.a1, 0);
}

#[test]
fn borrow_defects_on_bad_index_and_missing_attribute() {
    let mut k = boot_kernel();
    let buf_b = RAM_BASE + 0x800;
    let lease_arr = RAM_BASE + 0x980;
    let area = RAM_BASE + 0x9c0;

    do_recv(&mut k, 2, (buf_b, 8), 0, None);
    // A offers one write-only lease.
    let mut lease = Vec::new();
    lease.extend_from_slice(&2u32.to_le_bytes());
    lease.extend_from_slice(&area.to_le_bytes());
    lease.extend_from_slice(&4u32.to_le_bytes());
    k.ram.write_bytes(lease_arr, &lease);
    k.current = 1;
    let s = &mut k.tasks[1].save;
    s.a0 = ((tid(2, 0).0 as u32) << 16) | 5;
    s.a1 = 0;
    s.a2 = 0;
    s.a3 = 0;
    s.a4 = 0;
    s.a5 = lease_arr;
    s.a6 = 1;
    ipc::sys_send(&mut k);

    // Reading a write-only lease is a defect.
    let hint = borrow_read(&mut k, 2, tid(1, 0), 0, 0, (buf_b, 4));
    assert_eq!(hint, NextTask::Same);
    assert_eq!(k.tasks[2].save.a0, ipc::BORROW_DEFECT);

    // So is an index beyond the lease array.
    let hint = borrow_read(&mut k, 2, tid(1, 0), 5, 0, (buf_b, 4));
    assert_eq!(hint, NextTask::Same);
    assert_eq!(k.tasks[2].save.a0, ipc::BORROW_DEFECT);

    // An offset beyond the lease's end moves nothing.
    k.current = 2;
    let s = &mut k.tasks[2].save;
    s.a0 = tid(1, 0).0 as u32;
    s.a1 = 0;
    s.a2 = 9;
    s.a3 = buf_b;
    s.a4 = 4;
    let hint = ipc::sys_borrow_write(&mut k);
    assert_eq!(hint, NextTask::Same);
    assert_eq!(k.tasks[2].save.a0, 0);
    assert_eq!(k.tasks[2].save.a1, 0);
}

#[test]
fn reply_body_is_clamped_to_the_peer_buffer() {
    let mut k = boot_kernel();
    let buf_b = RAM_BASE + 0x800;
    let reply_a = RAM_BASE + 0xa00;
    let long_b = RAM_BASE + 0xb00;

    do_recv(&mut k, 2, (buf_b, 8), 0, None);
    // A's reply buffer takes three bytes.
    k.current = 1;
    let s = &mut k.tasks[1].save;
    s.a0 = ((tid(2, 0).0 as u32) << 16) | 1;
    s.a1 = 0;
    s.a2 = 0;
    s.a3 = reply_a;
    s.a4 = 3;
    s.a5 = 0;
    s.a6 = 0;
    ipc::sys_send(&mut k);
    // B sees a response capacity of three.
    assert_eq!(k.tasks[2].save.a4, 3);

    k.ram.write_bytes(reply_a, &vec![0u8; 4]);
    k.ram.write_bytes(long_b, &b"worlds".to_vec());
    k.current = 2;
    let s = &mut k.tasks[2].save;
    s.a0 = tid(1, 0).0 as u32;
    s.a1 = 0;
    s.a2 = long_b;
    s.a3 = 6;
    ipc::sys_reply(&mut k);
    // Only three bytes land; the reported length says so.
    assert_eq!(k.tasks[1].save.a1, 3);
    assert_eq!(k.ram.read_bytes(reply_a, 4), b"wor\0".to_vec());
}

#[test]
fn next_task_hints_combine_toward_the_stronger() {
    assert_eq!(NextTask::Same.combine(NextTask::Same), NextTask::Same);
    assert_eq!(NextTask::Same.combine(NextTask::Other), NextTask::Other);
    assert_eq!(
        NextTask::Specific(3).combine(NextTask::Same),
        NextTask::Specific(3)
    );
    assert_eq!(
        NextTask::Other.combine(NextTask::Specific(3)),
        NextTask::Specific(3)
    );
    assert_eq!(
        NextTask::Specific(1).combine(NextTask::Specific(2)),
        NextTask::Other
    );
}

#[test]
fn instruction_fetch_fault_records_illegal_text() {
    let mut k = boot_kernel();
    k.current = 1;
    kern::kernel::trap_handler(&mut k, kern::kernel::Trap::InstructionFault);
    match k.tasks[1].state {
        TaskState::Faulted { fault, .. } => {
            assert_eq!(fault, kern::abi::FaultInfo::IllegalText);
        }
        _ => panic!("task should be faulted"),
    }
}

#[test]
fn borrow_from_restarted_lender_reports_dead_code() {
    let mut k = boot_kernel();
    kern::kernel::restart_task(&mut k, 1, true);
    // B names A at its stale generation; the response carries the new one.
    let hint = borrow_read(&mut k, 2, tid(1, 0), 0, 0, (RAM_BASE + 0x800, 4));
    assert_eq!(hint, NextTask::Same);
    assert_eq!(k.tasks[2].save.a0, FIRST_DEAD_CODE | 1);
}
