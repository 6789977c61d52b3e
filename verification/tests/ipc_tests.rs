//! End-to-end IPC scenarios driven through the syscall layer.

use kern::abi::{
    InterruptNum, InterruptOwner, RegionDesc, TaskDesc, TaskId, FIRST_DEAD_CODE, REGION_READ,
    REGION_WRITE, START_AT_BOOT,
};
use kern::interrupts::{IrqOwnerTable, TaskIrqTable};
use kern::ipc;
use kern::kernel::{restart_task, Kernel};
use kern::task::{NextTask, SchedState, TaskState};
use kern::umem::UserRam;

const RAM_BASE: u32 = 0x4000_0000;
const RAM_SIZE: u32 = 0x1000;

fn ram_region() -> RegionDesc {
    RegionDesc {
        base: RAM_BASE,
        size: RAM_SIZE,
        attributes: REGION_READ | REGION_WRITE,
    }
}

/// Supervisor (0, prio 0, stopped), task A (1, prio 2), task B (2, prio 3),
/// idle (3, prio 7), all sharing one read-write RAM region.
fn boot_kernel() -> Kernel {
    let descs = vec![
        TaskDesc {
            entry_point: 0x2000_0000,
            initial_stack: RAM_BASE + 0x100,
            priority: 0,
            flags: 0,
            index: 0,
        },
        TaskDesc {
            entry_point: 0x2000_1000,
            initial_stack: RAM_BASE + 0x200,
            priority: 2,
            flags: START_AT_BOOT,
            index: 1,
        },
        TaskDesc {
            entry_point: 0x2000_2000,
            initial_stack: RAM_BASE + 0x300,
            priority: 3,
            flags: START_AT_BOOT,
            index: 2,
        },
        TaskDesc {
            entry_point: 0x2000_3000,
            initial_stack: RAM_BASE + 0x400,
            priority: 7,
            flags: START_AT_BOOT,
            index: 3,
        },
    ];
    let rts = vec![vec![ram_region()]; 4];
    let ram = UserRam::new(RAM_BASE, RAM_SIZE);
    let irq_map = IrqOwnerTable::build(
        8,
        &vec![(InterruptNum(7), InterruptOwner { task: 2, notification: 0b10 })],
    )
    .unwrap();
    let task_irq_map = TaskIrqTable::build(
        8,
        vec![(InterruptOwner { task: 2, notification: 0b10 }, vec![InterruptNum(7)])],
    )
    .unwrap();
    Kernel::new(descs, rts, ram, irq_map, task_irq_map).unwrap()
}

fn tid(index: u16, gen: u8) -> TaskId {
    TaskId::for_index_and_gen(index, gen)
}

fn do_send(
    k: &mut Kernel,
    caller: usize,
    target: TaskId,
    op: u16,
    out: (u32, u32),
    inb: (u32, u32),
    leases: (u32, u32),
) -> NextTask {
    k.current = caller;
    let s = &mut k.tasks[caller].save;
    s.a0 = ((target.0 as u32) << 16) | op as u32;
    s.a1 = out.0;
    s.a2 = out.1;
    s.a3 = inb.0;
    s.a4 = inb.1;
    s.a5 = leases.0;
    s.a6 = leases.1;
    ipc::sys_send(k)
}

fn do_recv_open(k: &mut Kernel, caller: usize, buf: (u32, u32), mask: u32) -> NextTask {
    k.current = caller;
    let s = &mut k.tasks[caller].save;
    s.a0 = buf.0;
    s.a1 = buf.1;
    s.a2 = mask;
    s.a3 = 0;
    ipc::sys_recv(k)
}

fn do_reply(k: &mut Kernel, caller: usize, peer: TaskId, code: u32, msg: (u32, u32)) -> NextTask {
    k.current = caller;
    let s = &mut k.tasks[caller].save;
    s.a0 = peer.0 as u32;
    s.a1 = code;
    s.a2 = msg.0;
    s.a3 = msg.1;
    ipc::sys_reply(k)
}

#[test]
fn ping_round_trip_delivers_both_ways() {
    let mut k = boot_kernel();
    let buf_b = RAM_BASE + 0x800;
    let out_a = RAM_BASE + 0x900;
    let reply_a = RAM_BASE + 0xa00;
    let pong_b = RAM_BASE + 0xb00;

    // B waits in an open receive.
    let hint = do_recv_open(&mut k, 2, (buf_b, 16), 0);
    assert_eq!(hint, NextTask::Other);
    assert_eq!(
        k.tasks[2].state,
        TaskState::Healthy(SchedState::InRecv(None))
    );

    // A sends "ping" with a five-byte reply buffer.
    k.ram.write_bytes(out_a, &b"ping".to_vec());
    k.ram.write_bytes(reply_a, &vec![0u8; 5]);
    let hint = do_send(&mut k, 1, tid(2, 0), 1, (out_a, 4), (reply_a, 5), (0, 0));
    // B has the larger priority value, so the sender just blocks and the
    // scheduler is asked to run.
    assert_eq!(hint, NextTask::Other);
    assert_eq!(
        k.tasks[1].state,
        TaskState::Healthy(SchedState::InReplyTo(tid(2, 0)))
    );
    assert_eq!(k.tasks[2].state, TaskState::Healthy(SchedState::Runnable));
    // B's result registers carry the message header.
    assert_eq!(k.tasks[2].save.a0, 0);
    assert_eq!(k.tasks[2].save.a1, tid(1, 0).0 as u32);
    assert_eq!(k.tasks[2].save.a2, 1);
    assert_eq!(k.tasks[2].save.a3, 4);
    assert_eq!(k.tasks[2].save.a4, 5);
    assert_eq!(k.tasks[2].save.a5, 0);
    // The message body arrived exactly.
    assert_eq!(k.ram.read_bytes(buf_b, 4), b"ping".to_vec());

    // B replies "pong" with code 0.
    k.ram.write_bytes(pong_b, &b"pong".to_vec());
    let hint = do_reply(&mut k, 2, tid(1, 0), 0, (pong_b, 4));
    assert_eq!(hint, NextTask::Specific(1));
    assert_eq!(k.tasks[1].state, TaskState::Healthy(SchedState::Runnable));
    assert_eq!(k.tasks[1].save.a0, 0);
    assert_eq!(k.tasks[1].save.a1, 4);
    // The reply buffer holds "pong" and the fifth byte is untouched.
    assert_eq!(k.ram.read_bytes(reply_a, 5), b"pong\0".to_vec());
}

#[test]
fn send_to_stale_generation_returns_dead_code() {
    let mut k = boot_kernel();
    // B restarts twice; its current generation becomes 2.
    restart_task(&mut k, 2, true);
    restart_task(&mut k, 2, true);
    assert_eq!(k.tasks[2].generation, 2);

    // A still holds a generation 1 identifier.
    let hint = do_send(&mut k, 1, tid(2, 1), 1, (0, 0), (0, 0), (0, 0));
    assert_eq!(hint, NextTask::Same);
    assert_eq!(k.tasks[1].save.a0, FIRST_DEAD_CODE | 2);
    assert_eq!(k.tasks[1].save.a0 & FIRST_DEAD_CODE, FIRST_DEAD_CODE);
    assert_eq!(k.tasks[1].save.a0 & 0xff, 2);
    assert_eq!(k.tasks[1].state, TaskState::Healthy(SchedState::Runnable));

    // Refreshing the stale identifier yields the current generation.
    k.current = 1;
    k.tasks[1].save.a0 = tid(2, 1).0 as u32;
    let hint = ipc::sys_refresh_task_id(&mut k);
    assert_eq!(hint, NextTask::Same);
    assert_eq!(k.tasks[1].save.a0, tid(2, 2).0 as u32);
}

#[test]
fn send_to_faulted_task_returns_dead_code() {
    let mut k = boot_kernel();
    k.current = 2;
    kern::kernel::handle_fault(&mut k, kern::abi::FaultInfo::IllegalInstruction);
    assert!(matches!(k.tasks[2].state, TaskState::Faulted { .. }));

    let hint = do_send(&mut k, 1, tid(2, 0), 1, (0, 0), (0, 0), (0, 0));
    assert_eq!(hint, NextTask::Same);
    assert_eq!(k.tasks[1].save.a0 & FIRST_DEAD_CODE, FIRST_DEAD_CODE);
}

#[test]
fn bad_out_buffer_faults_sender_and_leaves_receiver_waiting() {
    let mut k = boot_kernel();
    let buf_b = RAM_BASE + 0x800;
    let hint = do_recv_open(&mut k, 2, (buf_b, 16), 0);
    assert_eq!(hint, NextTask::Other);

    // A's outgoing buffer lies outside every region of A.
    let bogus = 0x5000_0000;
    let hint = do_send(&mut k, 1, tid(2, 0), 1, (bogus, 4), (0, 0), (0, 0));
    assert_eq!(hint, NextTask::Other);
    match k.tasks[1].state {
        TaskState::Faulted { fault, .. } => {
            assert_eq!(
                fault,
                kern::abi::FaultInfo::MemoryAccess {
                    address: Some(bogus),
                    source: kern::abi::FaultSource::User,
                }
            );
        }
        _ => panic!("sender should be faulted"),
    }
    // The supervisor was notified and B still waits; nothing was delivered.
    assert_eq!(
        k.tasks[0].notifications_posted & kern::task::FAULT_NOTIFICATION,
        kern::task::FAULT_NOTIFICATION
    );
    assert_eq!(
        k.tasks[2].state,
        TaskState::Healthy(SchedState::InRecv(None))
    );
}

#[test]
fn lease_read_and_info() {
    let mut k = boot_kernel();
    let buf_b = RAM_BASE + 0x800;
    let abcdef = RAM_BASE + 0x900;
    let lease_arr = RAM_BASE + 0x980;
    let reply_a = RAM_BASE + 0xa00;
    let dest_b = RAM_BASE + 0xb00;

    let hint = do_recv_open(&mut k, 2, (buf_b, 16), 0);
    assert_eq!(hint, NextTask::Other);

    // A offers one read lease over "abcdef".
    k.ram.write_bytes(abcdef, &b"abcdef".to_vec());
    let mut lease = Vec::new();
    lease.extend_from_slice(&1u32.to_le_bytes());
    lease.extend_from_slice(&abcdef.to_le_bytes());
    lease.extend_from_slice(&6u32.to_le_bytes());
    k.ram.write_bytes(lease_arr, &lease);
    let hint = do_send(&mut k, 1, tid(2, 0), 5, (0, 0), (reply_a, 0), (lease_arr, 1));
    assert_eq!(hint, NextTask::Other);
    // B sees one lease.
    assert_eq!(k.tasks[2].save.a5, 1);

    // B borrows three bytes from offset two.
    k.current = 2;
    let s = &mut k.tasks[2].save;
    s.a0 = tid(1, 0).0 as u32;
    s.a1 = 0;
    s.a2 = 2;
    s.a3 = dest_b;
    s.a4 = 3;
    let hint = ipc::sys_borrow_read(&mut k);
    assert_eq!(hint, NextTask::Same);
    assert_eq!(k.tasks[2].save.a0, 0);
    assert_eq!(k.tasks[2].save.a1, 3);
    assert_eq!(k.ram.read_bytes(dest_b, 3), b"cde".to_vec());

    // The lease reports read attributes and length six.
    let s = &mut k.tasks[2].save;
    s.a0 = tid(1, 0).0 as u32;
    s.a1 = 0;
    let hint = ipc::sys_borrow_info(&mut k);
    assert_eq!(hint, NextTask::Same);
    assert_eq!(k.tasks[2].save.a0, 0);
    assert_eq!(k.tasks[2].save.a1, 1);
    assert_eq!(k.tasks[2].save.a2, 6);
}

#[test]
fn lease_write_copies_into_lender() {
    let mut k = boot_kernel();
    let buf_b = RAM_BASE + 0x800;
    let target_a = RAM_BASE + 0x900;
    let lease_arr = RAM_BASE + 0x980;
    let src_b = RAM_BASE + 0xb00;

    do_recv_open(&mut k, 2, (buf_b, 16), 0);
    k.ram.write_bytes(target_a, &vec![0u8; 8]);
    let mut lease = Vec::new();
    lease.extend_from_slice(&2u32.to_le_bytes());
    lease.extend_from_slice(&target_a.to_le_bytes());
    lease.extend_from_slice(&8u32.to_le_bytes());
    k.ram.write_bytes(lease_arr, &lease);
    do_send(&mut k, 1, tid(2, 0), 5, (0, 0), (0, 0), (lease_arr, 1));

    k.ram.write_bytes(src_b, &b"hello".to_vec());
    k.current = 2;
    let s = &mut k.tasks[2].save;
    s.a0 = tid(1, 0).0 as u32;
    s.a1 = 0;
    s.a2 = 1;
    s.a3 = src_b;
    s.a4 = 5;
    let hint = ipc::sys_borrow_write(&mut k);
    assert_eq!(hint, NextTask::Same);
    assert_eq!(k.tasks[2].save.a0, 0);
    assert_eq!(k.tasks[2].save.a1, 5);
    assert_eq!(k.ram.read_bytes(target_a + 1, 5), b"hello".to_vec());
    assert_eq!(k.ram.read_bytes(target_a, 1), vec![0u8]);
}

#[test]
fn queued_sender_is_taken_in_priority_then_fifo_order() {
    let mut k = boot_kernel();
    let out_a = RAM_BASE + 0x900;
    let out_idle = RAM_BASE + 0x940;
    let buf_b = RAM_BASE + 0x800;

    k.ram.write_bytes(out_idle, &b"lo".to_vec());
    k.ram.write_bytes(out_a, &b"hi".to_vec());

    // The idle task (priority 7) queues first, then A (priority 2).
    let hint = do_send(&mut k, 3, tid(2, 0), 9, (out_idle, 2), (0, 0), (0, 0));
    assert_eq!(hint, NextTask::Other);
    let hint = do_send(&mut k, 1, tid(2, 0), 8, (out_a, 2), (0, 0), (0, 0));
    assert_eq!(hint, NextTask::Other);

    // B's receive takes A first despite its later arrival.
    let hint = do_recv_open(&mut k, 2, (buf_b, 16), 0);
    assert_eq!(hint, NextTask::Same);
    assert_eq!(k.tasks[2].save.a1, tid(1, 0).0 as u32);
    assert_eq!(k.tasks[2].save.a2, 8);
    assert_eq!(k.ram.read_bytes(buf_b, 2), b"hi".to_vec());
    assert_eq!(
        k.tasks[1].state,
        TaskState::Healthy(SchedState::InReplyTo(tid(2, 0)))
    );
    // The idle task still waits.
    assert_eq!(
        k.tasks[3].state,
        TaskState::Healthy(SchedState::InSendTo(tid(2, 0), false))
    );

    // The next receive takes the idle task.
    let hint = do_recv_open(&mut k, 2, (buf_b, 16), 0);
    assert_eq!(hint, NextTask::Same);
    assert_eq!(k.tasks[2].save.a1, tid(3, 0).0 as u32);
    assert_eq!(k.ram.read_bytes(buf_b, 2), b"lo".to_vec());
}

#[test]
fn restart_unblocks_waiters_with_dead_code() {
    let mut k = boot_kernel();
    // A blocks sending to B.
    let hint = do_send(&mut k, 1, tid(2, 0), 1, (0, 0), (0, 0), (0, 0));
    assert_eq!(hint, NextTask::Other);
    assert_eq!(
        k.tasks[1].state,
        TaskState::Healthy(SchedState::InSendTo(tid(2, 0), false))
    );

    // B restarts; A resumes with the dead-peer code carrying generation 1.
    restart_task(&mut k, 2, true);
    assert_eq!(k.tasks[1].state, TaskState::Healthy(SchedState::Runnable));
    assert_eq!(k.tasks[1].save.a0, FIRST_DEAD_CODE | 1);
    assert_eq!(k.tasks[2].generation, 1);
    assert_eq!(k.tasks[2].state, TaskState::Healthy(SchedState::Runnable));
    assert_eq!(k.tasks[2].save.sp, RAM_BASE + 0x300);
    assert_eq!(k.tasks[2].save.pc, 0x2000_2000);
}

#[test]
fn reply_to_task_not_waiting_is_dropped() {
    let mut k = boot_kernel();
    let before = k.tasks[1].save;
    let hint = do_reply(&mut k, 2, tid(1, 0), 7, (0, 0));
    assert_eq!(hint, NextTask::Same);
    assert_eq!(k.tasks[1].save, before);
    assert_eq!(k.tasks[1].state, TaskState::Healthy(SchedState::Runnable));
}

#[test]
fn reply_fault_faults_the_client() {
    let mut k = boot_kernel();
    let buf_b = RAM_BASE + 0x800;
    do_recv_open(&mut k, 2, (buf_b, 16), 0);
    do_send(&mut k, 1, tid(2, 0), 1, (0, 0), (0, 0), (0, 0));

    // B faults A instead of replying: reason 0 is an undefined operation.
    k.current = 2;
    let s = &mut k.tasks[2].save;
    s.a0 = tid(1, 0).0 as u32;
    s.a1 = 0;
    let hint = ipc::sys_reply_fault(&mut k);
    assert_eq!(hint, NextTask::Other);
    match k.tasks[1].state {
        TaskState::Faulted { fault, .. } => {
            assert_eq!(
                fault,
                kern::abi::FaultInfo::FromServer(
                    tid(2, 0),
                    kern::abi::ReplyFaultReason::UndefinedOperation
                )
            );
        }
        _ => panic!("client should be faulted"),
    }
}

#[test]
fn panic_syscall_records_message_and_faults_caller() {
    let mut k = boot_kernel();
    let msg = RAM_BASE + 0x900;
    k.ram.write_bytes(msg, &b"oh no".to_vec());
    k.current = 1;
    let s = &mut k.tasks[1].save;
    s.a0 = msg;
    s.a1 = 5;
    let hint = ipc::sys_panic(&mut k);
    assert_eq!(hint, NextTask::Other);
    assert_eq!(k.panic_message, b"oh no".to_vec());
    match k.tasks[1].state {
        TaskState::Faulted { fault, .. } => assert_eq!(fault, kern::abi::FaultInfo::Panic),
        _ => panic!("caller should be faulted"),
    }
}
