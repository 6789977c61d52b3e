//! Scheduling, timers, notifications, and interrupt plumbing scenarios.

use kern::abi::{
    InterruptNum, InterruptOwner, RegionDesc, TaskDesc, REGION_READ, REGION_WRITE, START_AT_BOOT,
};
use kern::arch::MIE_MTIMER;
use kern::interrupts::{IrqOwnerTable, TaskIrqTable};
use kern::ipc;
use kern::kernel::{trap_handler, Kernel, Trap};
use kern::task::{select, NextTask, SchedState, TaskState};
use kern::umem::UserRam;

const RAM_BASE: u32 = 0x4000_0000;
const RAM_SIZE: u32 = 0x1000;

fn ram_region() -> RegionDesc {
    RegionDesc {
        base: RAM_BASE,
        size: RAM_SIZE,
        attributes: REGION_READ | REGION_WRITE,
    }
}

/// Supervisor (0, prio 0, stopped), task A (1, prio 2), task C (2, prio 2)
/// — an equal-priority pair — and idle (3, prio 7).
fn boot_kernel() -> Kernel {
    let descs = vec![
        TaskDesc {
            entry_point: 0x2000_0000,
            initial_stack: RAM_BASE + 0x100,
            priority: 0,
            flags: 0,
            index: 0,
        },
        TaskDesc {
            entry_point: 0x2000_1000,
            initial_stack: RAM_BASE + 0x200,
            priority: 2,
            flags: START_AT_BOOT,
            index: 1,
        },
        TaskDesc {
            entry_point: 0x2000_2000,
            initial_stack: RAM_BASE + 0x300,
            priority: 2,
            flags: START_AT_BOOT,
            index: 2,
        },
        TaskDesc {
            entry_point: 0x2000_3000,
            initial_stack: RAM_BASE + 0x400,
            priority: 7,
            flags: START_AT_BOOT,
            index: 3,
        },
    ];
    let rts = vec![vec![ram_region()]; 4];
    let ram = UserRam::new(RAM_BASE, RAM_SIZE);
    let irq_map = IrqOwnerTable::build(
        8,
        &vec![(InterruptNum(7), InterruptOwner { task: 2, notification: 0b10 })],
    )
    .unwrap();
    let task_irq_map = TaskIrqTable::build(
        8,
        vec![(InterruptOwner { task: 2, notification: 0b10 }, vec![InterruptNum(7)])],
    )
    .unwrap();
    Kernel::new(descs, rts, ram, irq_map, task_irq_map).unwrap()
}

fn do_recv_open(k: &mut Kernel, caller: usize, buf: (u32, u32), mask: u32) -> NextTask {
    k.current = caller;
    let s = &mut k.tasks[caller].save;
    s.a0 = buf.0;
    s.a1 = buf.1;
    s.a2 = mask;
    s.a3 = 0;
    ipc::sys_recv(k)
}

fn do_set_timer(k: &mut Kernel, caller: usize, deadline: Option<u64>, bits: u32) -> NextTask {
    k.current = caller;
    let s = &mut k.tasks[caller].save;
    match deadline {
        Some(d) => {
            s.a0 = 1;
            s.a1 = d as u32;
            s.a2 = (d >> 32) as u32;
        }
        None => {
            s.a0 = 0;
            s.a1 = 0;
            s.a2 = 0;
        }
    }
    s.a3 = bits;
    ipc::sys_set_timer(k)
}

fn do_get_timer(k: &mut Kernel, caller: usize) -> (u64, Option<u64>, u32) {
    k.current = caller;
    ipc::sys_get_timer(&mut *k);
    let s = &k.tasks[caller].save;
    let now = (s.a0 as u64) | ((s.a1 as u64) << 32);
    let deadline = if s.a2 != 0 {
        Some((s.a3 as u64) | ((s.a4 as u64) << 32))
    } else {
        None
    };
    (now, deadline, s.a5)
}

#[test]
fn select_picks_lowest_index_of_minimum_priority() {
    let k = boot_kernel();
    // Tasks 1 and 2 share priority 2; task 1 has the lower index.
    assert_eq!(select(3, &k.tasks), Some(1));
}

#[test]
fn select_skips_faulted_tasks() {
    let mut k = boot_kernel();
    k.current = 1;
    kern::kernel::handle_fault(&mut k, kern::abi::FaultInfo::IllegalInstruction);
    // Task 1 is out; its equal-priority partner is chosen.
    assert_eq!(select(1, &k.tasks), Some(2));
    assert_ne!(k.current, 1);
}

#[test]
fn select_returns_none_with_nothing_runnable() {
    let mut k = boot_kernel();
    for i in 0..4 {
        k.tasks[i].state = TaskState::Healthy(SchedState::Stopped);
    }
    assert_eq!(select(0, &k.tasks), None);
}

#[test]
fn set_timer_then_get_timer_round_trips() {
    let mut k = boot_kernel();
    let hint = do_set_timer(&mut k, 1, Some(0x1_2345_6789), 0b100);
    assert_eq!(hint, NextTask::Same);
    let (_, deadline, on_dl) = do_get_timer(&mut k, 1);
    assert_eq!(deadline, Some(0x1_2345_6789));
    assert_eq!(on_dl, 0b100);
}

#[test]
fn clear_timer_then_get_timer_reports_none() {
    let mut k = boot_kernel();
    do_set_timer(&mut k, 1, Some(55), 1);
    do_set_timer(&mut k, 1, None, 9);
    let (_, deadline, on_dl) = do_get_timer(&mut k, 1);
    assert_eq!(deadline, None);
    assert_eq!(on_dl, 9);
}

#[test]
fn get_timer_now_never_decreases() {
    let mut k = boot_kernel();
    let (now0, _, _) = do_get_timer(&mut k, 1);
    k.current = 1;
    trap_handler(&mut k, Trap::MachineTimer);
    trap_handler(&mut k, Trap::MachineTimer);
    let cur = k.current;
    let (now1, _, _) = do_get_timer(&mut k, cur);
    assert!(now1 >= now0);
    assert_eq!(now1, now0 + 2);
}

#[test]
fn timer_fires_at_deadline_and_equal_priority_keeps_current() {
    let mut k = boot_kernel();
    // C arms its timer for tick 100 and blocks receiving on that bit.
    do_set_timer(&mut k, 2, Some(100), 0b1);
    let hint = do_recv_open(&mut k, 2, (RAM_BASE + 0x800, 4), 0b1);
    assert_eq!(hint, NextTask::Other);

    // A runs; the tick before the deadline changes nothing.
    k.current = 1;
    k.machine.ticks = 98;
    trap_handler(&mut k, Trap::MachineTimer);
    assert_eq!(
        k.tasks[2].state,
        TaskState::Healthy(SchedState::InRecv(None))
    );

    // The tick that reaches the deadline wakes C with a kernel
    // notification, but A keeps the CPU: equal priority, lower index.
    trap_handler(&mut k, Trap::MachineTimer);
    assert_eq!(k.machine.ticks, 100);
    assert_eq!(k.tasks[2].state, TaskState::Healthy(SchedState::Runnable));
    assert_eq!(k.tasks[2].save.a0, 0);
    assert_eq!(k.tasks[2].save.a1, kern::abi::KERNEL_TASK_ID as u32);
    assert_eq!(k.tasks[2].save.a2, 0b1);
    assert_eq!(k.tasks[2].save.a3, 0);
    assert_eq!(k.current, 1);
    // The timer is disarmed after firing.
    let (_, deadline, _) = do_get_timer(&mut k, 2);
    assert_eq!(deadline, None);
}

#[test]
fn interrupt_wakes_owner_and_masks_line_until_reenabled() {
    let mut k = boot_kernel();
    k.machine.mie = 1 << 7;
    // C receives openly on bit 1 of its notification set.
    let hint = do_recv_open(&mut k, 2, (RAM_BASE + 0x800, 4), 0b10);
    assert_eq!(hint, NextTask::Other);

    // Interrupt 7 fires; it is routed to C as bit 1.
    k.current = 1;
    kern::kernel::platform_interrupt_handler(&mut k, 7);
    assert_eq!(k.tasks[2].state, TaskState::Healthy(SchedState::Runnable));
    assert_eq!(k.tasks[2].save.a1, kern::abi::KERNEL_TASK_ID as u32);
    assert_eq!(k.tasks[2].save.a2, 0b10);
    assert_eq!(k.tasks[2].save.a3, 0);
    // The line stays masked until C re-enables it.
    assert_eq!(k.machine.mie & (1 << 7), 0);

    k.current = 2;
    let s = &mut k.tasks[2].save;
    s.a0 = 0b10;
    s.a1 = 1;
    let hint = ipc::sys_irq_control(&mut k);
    assert_eq!(hint, NextTask::Same);
    assert_eq!(k.machine.mie & (1 << 7), 1 << 7);
}

#[test]
fn irq_control_with_foreign_bits_faults_caller() {
    let mut k = boot_kernel();
    // A owns no interrupt, so asking to unmask one is a usage fault.
    k.current = 1;
    let s = &mut k.tasks[1].save;
    s.a0 = 0b10;
    s.a1 = 1;
    let hint = ipc::sys_irq_control(&mut k);
    assert_eq!(hint, NextTask::Other);
    assert!(matches!(k.tasks[1].state, TaskState::Faulted { .. }));
}

#[test]
fn post_zero_is_invisible_to_recv() {
    let mut k = boot_kernel();
    // C blocks in an open receive with some mask.
    let hint = do_recv_open(&mut k, 2, (RAM_BASE + 0x800, 4), 0b11);
    assert_eq!(hint, NextTask::Other);
    let before_state = k.tasks[2].state;
    let before_posted = k.tasks[2].notifications_posted;

    // A posts the empty set; nothing may change and nothing wakes.
    k.current = 1;
    let s = &mut k.tasks[1].save;
    s.a0 = kern::abi::TaskId::for_index_and_gen(2, 0).0 as u32;
    s.a1 = 0;
    let hint = ipc::sys_post(&mut k);
    assert_eq!(hint, NextTask::Same);
    assert_eq!(k.tasks[1].save.a0, 0);
    assert_eq!(k.tasks[2].state, before_state);
    assert_eq!(k.tasks[2].notifications_posted, before_posted);
}

#[test]
fn post_matching_bits_wakes_receiver() {
    let mut k = boot_kernel();
    let hint = do_recv_open(&mut k, 2, (RAM_BASE + 0x800, 4), 0b100);
    assert_eq!(hint, NextTask::Other);

    k.current = 1;
    let s = &mut k.tasks[1].save;
    s.a0 = kern::abi::TaskId::for_index_and_gen(2, 0).0 as u32;
    s.a1 = 0b100;
    let hint = ipc::sys_post(&mut k);
    assert_eq!(hint, NextTask::Other);
    assert_eq!(k.tasks[2].state, TaskState::Healthy(SchedState::Runnable));
    assert_eq!(k.tasks[2].save.a2, 0b100);
}

#[test]
fn pending_notification_is_taken_without_blocking() {
    let mut k = boot_kernel();
    k.tasks[2].notifications_posted = 0b110;
    let hint = do_recv_open(&mut k, 2, (RAM_BASE + 0x800, 4), 0b010);
    assert_eq!(hint, NextTask::Same);
    assert_eq!(k.tasks[2].state, TaskState::Healthy(SchedState::Runnable));
    assert_eq!(k.tasks[2].save.a2, 0b010);
    // The delivered bit is cleared; the other stays pending.
    assert_eq!(k.tasks[2].notifications_posted, 0b100);
}

#[test]
fn syscall_trap_advances_pc_and_dispatches() {
    let mut k = boot_kernel();
    k.current = 1;
    k.tasks[1].save.pc = 0x2000_1004;
    // Register a7 selects the get-timer syscall.
    k.tasks[1].save.a7 = 9;
    trap_handler(&mut k, Trap::UserEnvCall);
    assert_eq!(k.tasks[1].save.pc, 0x2000_1008);
    assert_eq!(k.tasks[1].save.a2, 0);
    assert_eq!(k.current, 1);
}

#[test]
fn unknown_syscall_number_faults_caller() {
    let mut k = boot_kernel();
    k.current = 1;
    k.tasks[1].save.a7 = 77;
    trap_handler(&mut k, Trap::UserEnvCall);
    match k.tasks[1].state {
        TaskState::Faulted { fault, .. } => assert_eq!(
            fault,
            kern::abi::FaultInfo::SyscallUsage(kern::abi::UsageError::BadSyscallNumber)
        ),
        _ => panic!("caller should be faulted"),
    }
    assert_ne!(k.current, 1);
}

#[test]
fn load_fault_trap_faults_current_task() {
    let mut k = boot_kernel();
    k.current = 2;
    trap_handler(&mut k, Trap::LoadFault(0x6000_0000));
    match k.tasks[2].state {
        TaskState::Faulted { fault, .. } => assert_eq!(
            fault,
            kern::abi::FaultInfo::MemoryAccess {
                address: Some(0x6000_0000),
                source: kern::abi::FaultSource::User,
            }
        ),
        _ => panic!("task should be faulted"),
    }
    assert_ne!(k.current, 2);
}

#[test]
fn start_first_task_primes_timer_and_drops_privilege() {
    let mut k = boot_kernel();
    k.machine.mtime = 500;
    let first = k.current;
    let pc = k.tasks[first].save.pc;
    kern::arch::start_first_task(&mut k.machine, 10, &k.tasks[first]);
    assert_eq!(k.machine.clock_freq_khz, 10);
    assert_eq!(k.machine.mtimecmp, 510);
    assert_eq!(k.machine.mie & MIE_MTIMER, MIE_MTIMER);
    assert!(k.machine.mpp_user);
    assert_eq!(k.machine.mepc, pc);
}

#[test]
fn equal_priority_wake_by_post_keeps_current() {
    let mut k = boot_kernel();
    // C blocks receiving on bit 2.
    do_recv_open(&mut k, 2, (RAM_BASE + 0x800, 4), 0b100);
    // A, of the same priority, posts that bit through the trap path.
    k.current = 1;
    let s = &mut k.tasks[1].save;
    s.a0 = kern::abi::TaskId::for_index_and_gen(2, 0).0 as u32;
    s.a1 = 0b100;
    s.a7 = 11;
    trap_handler(&mut k, Trap::UserEnvCall);
    // C woke but has equal priority: A keeps the CPU.
    assert_eq!(k.tasks[2].state, TaskState::Healthy(SchedState::Runnable));
    assert_eq!(k.current, 1);
}

#[test]
fn better_priority_wake_by_post_reschedules() {
    let mut k = boot_kernel();
    // Both equal-priority tasks block; only the idle task stays runnable.
    do_recv_open(&mut k, 1, (RAM_BASE + 0x800, 4), 0b100);
    do_recv_open(&mut k, 2, (RAM_BASE + 0x840, 4), 0b100);
    // The idle task posts to C through the trap path; C's wake preempts.
    k.current = 3;
    let s = &mut k.tasks[3].save;
    s.a0 = kern::abi::TaskId::for_index_and_gen(2, 0).0 as u32;
    s.a1 = 0b100;
    s.a7 = 11;
    trap_handler(&mut k, Trap::UserEnvCall);
    assert_eq!(k.tasks[2].state, TaskState::Healthy(SchedState::Runnable));
    // The scheduler picks the woken task: it is the only runnable task of
    // the minimum priority value.
    assert_eq!(k.current, 2);
}

#[test]
fn set_timer_with_past_deadline_posts_at_once() {
    let mut k = boot_kernel();
    k.machine.ticks = 100;
    // The deadline has already passed: the bits arrive immediately and
    // the timer stays disarmed.
    let hint = do_set_timer(&mut k, 1, Some(100), 0b1000);
    assert_eq!(hint, NextTask::Same);
    assert_eq!(k.tasks[1].notifications_posted & 0b1000, 0b1000);
    let (_, deadline, on_dl) = do_get_timer(&mut k, 1);
    assert_eq!(deadline, None);
    assert_eq!(on_dl, 0b1000);

    // The posted bits satisfy the task's next receive without blocking.
    let hint = do_recv_open(&mut k, 1, (RAM_BASE + 0x800, 4), 0b1000);
    assert_eq!(hint, NextTask::Same);
    assert_eq!(k.tasks[1].save.a2, 0b1000);
    assert_eq!(k.tasks[1].notifications_posted & 0b1000, 0);

    // One tick past the deadline behaves the same way.
    let hint = do_set_timer(&mut k, 2, Some(99), 0b1);
    assert_eq!(hint, NextTask::Same);
    assert_eq!(k.tasks[2].notifications_posted & 0b1, 0b1);
    let (_, deadline, _) = do_get_timer(&mut k, 2);
    assert_eq!(deadline, None);

    // A future deadline is stored, not posted.
    let hint = do_set_timer(&mut k, 3, Some(101), 0b10);
    assert_eq!(hint, NextTask::Same);
    assert_eq!(k.tasks[3].notifications_posted & 0b10, 0);
    let (_, deadline, _) = do_get_timer(&mut k, 3);
    assert_eq!(deadline, Some(101));
}

#[test]
fn timer_interrupt_counts_profiling_events_when_enabled() {
    let mut k = boot_kernel();
    kern::profiling::configure_events_table(&mut k.profiling);
    k.current = 1;
    trap_handler(&mut k, Trap::MachineTimer);
    assert_eq!(k.profiling.timer_isr_enter, 1);
    assert_eq!(k.profiling.timer_isr_exit, 1);
    // Nothing woke, so no context switch was counted.
    assert_eq!(k.profiling.context_switch, 0);

    // With the table disabled nothing counts.
    let mut quiet = boot_kernel();
    quiet.current = 1;
    trap_handler(&mut quiet, Trap::MachineTimer);
    assert_eq!(quiet.profiling.timer_isr_enter, 0);
    assert_eq!(quiet.profiling.timer_isr_exit, 0);
}

#[test]
fn preempting_wake_counts_a_context_switch() {
    let mut k = boot_kernel();
    kern::profiling::configure_events_table(&mut k.profiling);
    // Both equal-priority tasks block; the idle task runs and posts to C,
    // whose wake preempts the idle task.
    do_recv_open(&mut k, 1, (RAM_BASE + 0x800, 4), 0b100);
    do_recv_open(&mut k, 2, (RAM_BASE + 0x840, 4), 0b100);
    let switches = k.profiling.context_switch;
    k.current = 3;
    let s = &mut k.tasks[3].save;
    s.a0 = kern::abi::TaskId::for_index_and_gen(2, 0).0 as u32;
    s.a1 = 0b100;
    s.a7 = 11;
    trap_handler(&mut k, Trap::UserEnvCall);
    assert_eq!(k.current, 2);
    assert_eq!(k.profiling.context_switch, switches + 1);

    // An equal-priority wake keeps the CPU and counts no switch.
    do_recv_open(&mut k, 1, (RAM_BASE + 0x800, 4), 0b100);
    let switches = k.profiling.context_switch;
    k.current = 2;
    let s = &mut k.tasks[2].save;
    s.a0 = kern::abi::TaskId::for_index_and_gen(1, 0).0 as u32;
    s.a1 = 0b100;
    s.a7 = 11;
    trap_handler(&mut k, Trap::UserEnvCall);
    assert_eq!(k.current, 2);
    assert_eq!(k.profiling.context_switch, switches);
}

#[test]
fn set_current_task_records_and_counts_the_switch() {
    let mut k = boot_kernel();
    kern::profiling::configure_events_table(&mut k.profiling);
    kern::kernel::set_current_task(&mut k, 3);
    assert_eq!(kern::kernel::get_current_task(&k), 3);
    assert_eq!(k.profiling.context_switch, 1);
}
