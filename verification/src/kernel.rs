//! The kernel proper: the task table, the RAM window, the machine state,
//! and the handlers the trap path runs — timer ticks, platform interrupts,
//! and fault conversion.

use vstd::prelude::*;
use crate::abi::{FaultInfo, RegionDesc, GENERATION_MASK, REGIONS_PER_TASK, REGION_READ, REGION_WRITE};
use crate::arch::{disable_irq, Machine};
use crate::interrupts::{get_irq_owner, IrqOwnerTable, TaskIrqTable};
use crate::task::{
    force_fault, is_select_choice, process_timers, select, spec_fire_timer, spec_kept_or_selected,
    spec_post, spec_preempts, timer_fires, NextTask, SchedState, Task, TaskState,
};
use crate::umem::UserRam;

verus! {

/// Upper bound on the number of tasks, from the ten index bits of a task
/// identifier.
pub const MAX_TASKS: usize = 1024;

/// Whether the peers a scheduling state names all lie inside the task
/// table.
pub open spec fn sched_peers_in_range(s: SchedState, len: int) -> bool {
    match s {
        SchedState::InSendTo(p, _) => p.spec_index() < len,
        SchedState::InReplyTo(p) => p.spec_index() < len,
        SchedState::InRecv(f) => match f {
            Some(p) => p.spec_index() < len,
            None => true,
        },
        _ => true,
    }
}

/// Well-formedness of one task in a table of `len` tasks over `ram`.
pub open spec fn task_wf(t: Task, i: int, len: int, ram: UserRam) -> bool {
    &&& t.descriptor.index == i
    &&& t.generation <= GENERATION_MASK
    &&& t.region_table@.len() <= REGIONS_PER_TASK
    &&& forall|j: int|
        0 <= j < t.region_table@.len() ==> (#[trigger] t.region_table@[j]).wf()
            && crate::arch::pmp_encodable(t.region_table@[j].attributes)
    &&& forall|j: int|
        0 <= j < t.region_table@.len()
            && (#[trigger] t.region_table@[j]).attributes & (REGION_READ | REGION_WRITE) != 0
            ==> ram.spec_contains(
                t.region_table@[j].base as int,
                t.region_table@[j].size as int,
            )
    &&& t.save.sp % 16 == 0
    &&& t.descriptor.initial_stack % 16 == 0
    &&& forall|j: int|
        0 <= j < t.region_table@.len()
            && crate::arch::paints_region(#[trigger] t.region_table@[j], t.descriptor.initial_stack)
            ==> t.region_table@[j].attributes & REGION_WRITE != 0
    &&& t.is_in_recv() ==> t.notifications_posted & t.notifications_enabled == 0
    &&& match t.state {
        TaskState::Healthy(s) => sched_peers_in_range(s, len),
        TaskState::Faulted { .. } => true,
    }
}

/// The kernel state: the task table, the RAM window backing task memory,
/// the machine registers the kernel programs, and the static interrupt
/// routing tables.
pub struct Kernel {
    /// The task control blocks, in descriptor order.
    pub tasks: Vec<Task>,
    /// The RAM window that backs task memory.
    pub ram: UserRam,
    /// Machine state: tick counter, timer compare, interrupt enables.
    pub machine: Machine,
    /// Index of the task whose registers the trap stub saves and restores.
    pub current: usize,
    /// Monotone counter stamped onto senders as they enqueue, so that
    /// equal-priority senders leave in arrival order.
    pub stamp: u64,
    /// Routing from hardware interrupt to owning task and notification
    /// bits.
    pub irq_map: IrqOwnerTable,
    /// Reverse routing from task and notification bits to interrupt
    /// numbers.
    pub task_irq_map: TaskIrqTable,
    /// Bounded buffer holding the message of the latest user panic.
    pub panic_message: Vec<u8>,
    /// Profiling event counters, bumped by the trap paths once a board
    /// installs the table.
    pub profiling: crate::profiling::EventsTable,
}

impl Kernel {
    /// Kernel well-formedness: a populated task table led by the priority
    /// zero supervisor, every block internally consistent, and the routing
    /// tables collision free with owners inside the table.
    pub open spec fn wf(self) -> bool {
        &&& 0 < self.tasks@.len() <= MAX_TASKS
        &&& self.current < self.tasks@.len()
        &&& self.ram.wf()
        &&& forall|i: int|
            0 <= i < self.tasks@.len()
                ==> task_wf(
                    #[trigger] self.tasks@[i],
                    i,
                    self.tasks@.len() as int,
                    self.ram,
                )
        &&& self.tasks@[0].priority() == 0
        &&& forall|i: int| 1 <= i < self.tasks@.len() ==> (#[trigger] self.tasks@[i]).priority() >= 1
        &&& self.irq_map.wf()
        &&& self.task_irq_map.wf()
        &&& forall|n: u32|
            #[trigger] self.irq_map.spec_get(n) matches Some(owner)
                ==> owner.task < self.tasks@.len()
        &&& forall|o: crate::abi::InterruptOwner|
            #[trigger] self.task_irq_map.spec_get(o) matches Some(irqs)
                ==> forall|j: int| 0 <= j < irqs.len() ==> (#[trigger] irqs[j]).0 < 32
        &&& forall|o: crate::abi::InterruptOwner|
            #[trigger] self.task_irq_map.spec_get(o) matches Some(irqs)
                ==> forall|j: int|
                    0 <= j < irqs.len() ==> self.irq_map.spec_get((#[trigger] irqs[j]).0)
                        == Some(o)
    }

    /// The kernel tick count, the time base every timer comparison uses.
    pub open spec fn spec_now(self) -> u64 {
        self.machine.ticks
    }
}

/// Records task `index` as the one the trap stub saves into and restores
/// from, counting the context switch.
pub fn set_current_task(k: &mut Kernel, index: usize)
    requires
        index < old(k).tasks@.len(),
    ensures
        *final(k) == (Kernel {
            current: index,
            profiling: crate::profiling::spec_context_switch(old(k).profiling),
            ..*old(k)
        }),
{
    crate::profiling::event_context_switch(&mut k.profiling, index);
    k.current = index;
}

/// Reads which task the trap stub currently saves into and restores from.
pub fn get_current_task(k: &Kernel) -> (i: usize)
    ensures
        i == k.current,
{
    k.current
}

/// Posting notification bits preserves a task's well-formedness.
pub proof fn lemma_post_wf(t: Task, bits: u32, i: int, len: int, ram: UserRam)
    requires
        task_wf(t, i, len, ram),
    ensures
        task_wf(spec_post(t, bits).0, i, len, ram),
{
    let t2 = spec_post(t, bits).0;
    let posted = t.notifications_posted | bits;
    if t.is_in_recv() && posted & t.notifications_enabled != 0 {
    } else {
        if t2.is_in_recv() {
            let p = t.notifications_posted;
            let e = t.notifications_enabled;
            assert((p | bits) & e == 0 ==> (p | bits) & e == 0);
        }
    }
}

/// Firing a task's timer preserves its well-formedness.
pub proof fn lemma_fire_timer_wf(t: Task, i: int, len: int, ram: UserRam)
    requires
        task_wf(t, i, len, ram),
    ensures
        task_wf(spec_fire_timer(t).0, i, len, ram),
{
    let cleared = Task {
        timer: crate::task::TaskTimer { deadline: None, to_post: t.timer.to_post },
        ..t
    };
    lemma_post_wf(cleared, t.timer.to_post, i, len, ram);
}

/// The full effect of one timer tick: time advances by one, every due
/// timer fires, the compare register moves one interval forward, and the
/// CPU stays with the interrupted task unless a wake-up preempts it.
pub open spec fn spec_timer_tick(pre: Kernel, post: Kernel) -> bool {
    let now = (pre.machine.ticks + 1) as u64;
    let woke = exists|i: int|
        0 <= i < pre.tasks@.len() && timer_fires(#[trigger] pre.tasks@[i], now)
            && spec_fire_timer(pre.tasks@[i]).1;
    &&& post.machine == (Machine {
        ticks: now,
        mtimecmp: (pre.machine.mtimecmp + pre.machine.clock_freq_khz) as u64,
        ..pre.machine
    })
    &&& post.tasks@.len() == pre.tasks@.len()
    &&& forall|i: int|
        0 <= i < pre.tasks@.len() && timer_fires(pre.tasks@[i], now)
            ==> post.tasks@[i] == spec_fire_timer(pre.tasks@[i]).0
    &&& forall|i: int|
        0 <= i < pre.tasks@.len() && !timer_fires(pre.tasks@[i], now)
            ==> post.tasks@[i] == pre.tasks@[i]
    &&& (if woke {
        spec_kept_or_selected(post.tasks@, pre.current as int, post.current as int)
    } else {
        post.current == pre.current
    })
    &&& post.profiling == ({
        let p1 = crate::profiling::spec_timer_isr_enter(pre.profiling);
        let p2 = if woke && spec_switched(post.tasks@, pre.current as int) {
            crate::profiling::spec_context_switch(p1)
        } else {
            p1
        };
        crate::profiling::spec_timer_isr_exit(p2)
    })
    &&& post.ram == pre.ram
    &&& post.stamp == pre.stamp
    &&& post.irq_map == pre.irq_map
    &&& post.task_irq_map == pre.task_irq_map
    &&& post.panic_message == pre.panic_message
}

/// Whether the scheduling rule actually re-publishes the current task:
/// the current task must give the CPU up and some task is runnable to
/// take it. Exactly then is a context switch performed and counted.
pub open spec fn spec_switched(tasks: Seq<Task>, cur: int) -> bool {
    spec_preempts(tasks, cur) && exists|j: int|
        0 <= j < tasks.len() && (#[trigger] tasks[j]).is_runnable()
}

/// The full effect of the scheduling rule: everything but the current
/// task and the context-switch counter is untouched; the CPU stays put
/// unless the current task must give it up, and an actual switch is
/// counted once.
pub open spec fn spec_maybe_switch(pre: Kernel, post: Kernel) -> bool {
    &&& post.tasks@ == pre.tasks@
    &&& post.ram == pre.ram
    &&& post.machine == pre.machine
    &&& post.stamp == pre.stamp
    &&& post.irq_map == pre.irq_map
    &&& post.task_irq_map == pre.task_irq_map
    &&& post.panic_message == pre.panic_message
    &&& spec_kept_or_selected(pre.tasks@, pre.current as int, post.current as int)
    &&& post.profiling == if spec_switched(pre.tasks@, pre.current as int) {
        crate::profiling::spec_context_switch(pre.profiling)
    } else {
        pre.profiling
    }
}

/// Applies the scheduling rule after tasks may have changed state: the
/// current task keeps the CPU unless it is no longer runnable or some
/// runnable task carries a strictly smaller priority value; only then is
/// the scheduler rerun. Equal-priority wake-ups never take the CPU away.
fn maybe_switch(k: &mut Kernel)
    requires
        old(k).wf(),
    ensures
        final(k).wf(),
        spec_maybe_switch(*old(k), *final(k)),
{
    let cur = k.current;
    let cur_runnable = match k.tasks[cur].state {
        TaskState::Healthy(SchedState::Runnable) => true,
        _ => false,
    };
    let cur_prio = k.tasks[cur].descriptor.priority;
    let mut preempt = !cur_runnable;
    let mut j: usize = 0;
    while j < k.tasks.len()
        invariant
            j <= k.tasks@.len(),
            *k == *old(k),
            cur == old(k).current,
            cur < k.tasks@.len(),
            cur_runnable == k.tasks@[cur as int].is_runnable(),
            cur_prio == k.tasks@[cur as int].priority(),
            preempt ==> spec_preempts(k.tasks@, cur as int),
            !preempt ==> cur_runnable && forall|x: int|
                0 <= x < j ==> !((#[trigger] k.tasks@[x]).is_runnable() && k.tasks@[x].priority()
                    < cur_prio),
        decreases k.tasks@.len() - j,
    {
        let runnable = match k.tasks[j].state {
            TaskState::Healthy(SchedState::Runnable) => true,
            _ => false,
        };
        if runnable && k.tasks[j].descriptor.priority < cur_prio {
            preempt = true;
        }
        j = j + 1;
    }
    if preempt {
        match select(cur, &k.tasks) {
            Some(next) => {
                crate::profiling::event_context_switch(&mut k.profiling, next);
                k.current = next;
            },
            None => {},
        }
    }
}

/// The timer interrupt handler: advances the kernel's notion of time by
/// one tick, fires every task timer whose deadline has arrived, applies
/// the scheduling rule when a task woke, and moves the timer compare
/// register one interval forward. The tick counter must not wrap; an
/// overflow would indicate memory corruption and the kernel would rather
/// stop.
pub fn timer_handler(k: &mut Kernel)
    requires
        old(k).wf(),
        old(k).machine.ticks < u64::MAX,
        old(k).machine.mtimecmp + old(k).machine.clock_freq_khz <= u64::MAX,
    ensures
        final(k).wf(),
        spec_timer_tick(*old(k), *final(k)),
        final(k).spec_now() == old(k).spec_now() + 1,
{
    crate::profiling::event_timer_isr_enter(&mut k.profiling);
    crate::arch::incr_ticks(&mut k.machine);
    let now = k.machine.ticks;

    let switch = process_timers(&mut k.tasks, now);

    proof {
        assert forall|i: int| 0 <= i < k.tasks@.len() implies task_wf(
            #[trigger] k.tasks@[i],
            i,
            k.tasks@.len() as int,
            k.ram,
        ) by {
            if timer_fires(old(k).tasks@[i], now) {
                lemma_fire_timer_wf(old(k).tasks@[i], i, k.tasks@.len() as int, k.ram);
            }
        }
    }

    if switch != NextTask::Same {
        maybe_switch(k);
    }

    crate::profiling::event_timer_isr_exit(&mut k.profiling);
    crate::arch::reset_timer(&mut k.machine);
}

/// The full effect of delivering platform interrupt `irq`: the line is
/// masked, the owning task has its notification bits posted, and the CPU
/// stays with the interrupted task unless the wake-up preempts it.
pub open spec fn spec_platform_interrupt(pre: Kernel, post: Kernel, irq: u32) -> bool {
    let owner = pre.irq_map.spec_get(irq)->Some_0;
    let woke = spec_post(pre.tasks@[owner.task as int], owner.notification).1;
    &&& post.machine == (Machine { mie: pre.machine.mie & !(1u32 << irq), ..pre.machine })
    &&& post.tasks@.len() == pre.tasks@.len()
    &&& post.tasks@[owner.task as int] == spec_post(
        pre.tasks@[owner.task as int],
        owner.notification,
    ).0
    &&& forall|i: int|
        0 <= i < pre.tasks@.len() && i != owner.task as int ==> post.tasks@[i] == pre.tasks@[i]
    &&& (if woke {
        spec_kept_or_selected(post.tasks@, pre.current as int, post.current as int)
    } else {
        post.current == pre.current
    })
    &&& post.profiling == if woke && spec_switched(post.tasks@, pre.current as int) {
        crate::profiling::spec_context_switch(pre.profiling)
    } else {
        pre.profiling
    }
    &&& post.ram == pre.ram
    &&& post.stamp == pre.stamp
    &&& post.irq_map == pre.irq_map
    &&& post.task_irq_map == pre.task_irq_map
    &&& post.panic_message == pre.panic_message
}

/// The platform interrupt handler: masks the fired line, posts the owning
/// task's notification bits, and applies the scheduling rule if that woke
/// it. The line stays masked until the owner re-enables it through the
/// interrupt-control syscall. Unrouted interrupts are excluded: the kernel
/// treats one as fatal.
pub fn platform_interrupt_handler(k: &mut Kernel, irq: u32)
    requires
        old(k).wf(),
        irq < 32,
        old(k).irq_map.spec_get(irq) matches Some(_),
    ensures
        final(k).wf(),
        spec_platform_interrupt(*old(k), *final(k), irq),
{
    let owner = match get_irq_owner(&k.irq_map, irq) {
        Ok(owner) => owner,
        Err(()) => {
            proof {
                assert(false);
            }
            crate::abi::InterruptOwner { task: 0, notification: 0 }
        },
    };

    disable_irq(&mut k.machine, irq);

    let owner_index = owner.task as usize;
    let switch = k.tasks[owner_index].post(owner.notification);

    proof {
        lemma_post_wf(
            old(k).tasks@[owner_index as int],
            owner.notification,
            owner_index as int,
            k.tasks@.len() as int,
            k.ram,
        );
    }

    if switch {
        maybe_switch(k);
    }
}

/// Converts a CPU exception on the current task into a task fault: the
/// task is faulted, the supervisor is notified, and another task is
/// scheduled. Control must not return to the faulted task, so some other
/// task has to be runnable; configurations guarantee one by providing an
/// always-runnable idle task.
pub fn handle_fault(k: &mut Kernel, fault: FaultInfo)
    requires
        old(k).wf(),
        exists|j: int|
            0 <= j < old(k).tasks@.len() && j != old(k).current
                && (#[trigger] old(k).tasks@[j]).is_runnable(),
    ensures
        final(k).wf(),
        final(k).tasks@.len() == old(k).tasks@.len(),
        final(k).tasks@ == crate::task::spec_force_fault_tasks(
            old(k).tasks@,
            old(k).current as int,
            fault,
        ),
        final(k).tasks@[old(k).current as int].state
            == crate::task::spec_faulted_state(
                old(k).tasks@[old(k).current as int].state,
                fault,
            ),
        !final(k).tasks@[old(k).current as int].is_runnable(),
        final(k).current != old(k).current,
        crate::task::is_select_choice(final(k).tasks@, final(k).current as int),
        final(k).machine == old(k).machine,
        final(k).ram == old(k).ram,
        final(k).stamp == old(k).stamp,
        final(k).irq_map == old(k).irq_map,
        final(k).task_irq_map == old(k).task_irq_map,
        final(k).panic_message == old(k).panic_message,
        final(k).profiling == crate::profiling::spec_context_switch(old(k).profiling),
{
    let idx = k.current;
    force_fault(&mut k.tasks, idx, fault);

    proof {
        assert forall|i: int| 0 <= i < k.tasks@.len() implies task_wf(
            #[trigger] k.tasks@[i],
            i,
            k.tasks@.len() as int,
            k.ram,
        ) by {
            if i == 0 && idx != 0 {
                lemma_post_wf(
                    old(k).tasks@[0],
                    crate::task::FAULT_NOTIFICATION,
                    0,
                    k.tasks@.len() as int,
                    k.ram,
                );
            } else if i == 0 && idx == 0 {
                let faulted = Task {
                    state: crate::task::spec_faulted_state(old(k).tasks@[0].state, fault),
                    ..old(k).tasks@[0]
                };
                lemma_post_wf(
                    faulted,
                    crate::task::FAULT_NOTIFICATION,
                    0,
                    k.tasks@.len() as int,
                    k.ram,
                );
            }
        }
        let j = choose|j: int|
            0 <= j < old(k).tasks@.len() && j != old(k).current
                && (#[trigger] old(k).tasks@[j]).is_runnable();
        assert(k.tasks@[j].is_runnable());
    }

    let next = match select(idx, &k.tasks) {
        Some(next) => next,
        None => {
            proof {
                assert(false);
            }
            0
        },
    };
    crate::profiling::event_context_switch(&mut k.profiling, next);
    k.current = next;
}

/// The trap causes the kernel handles, as decoded from the machine cause
/// register by the entry stub's surroundings.
#[derive(Copy, Clone, Debug, PartialEq, Eq)]
pub enum Trap {
    /// The periodic machine timer interrupt.
    MachineTimer,
    /// The external interrupt line feeding the platform interrupt
    /// controller.
    MachineExternal,
    /// An environment call from user mode: a syscall.
    UserEnvCall,
    /// The task executed an undefined instruction.
    IllegalInstruction,
    /// A load touched memory the task does not own; the payload is the
    /// faulting address the hardware captured.
    LoadFault(u32),
    /// A store touched memory the task does not own; the payload is the
    /// faulting address the hardware captured.
    StoreFault(u32),
    /// An instruction fetch touched memory the task cannot execute.
    InstructionFault,
}

/// The external interrupt line through which the platform interrupt
/// controller signals the core.
pub const PLIC_EXTERNAL_IRQ: u32 = 11;

/// Stores the register frame the trap stub captured into the current
/// task's block. The stub preserves the stack pointer a task had at trap
/// time, which the calling convention keeps 16-byte aligned.
pub fn save_frame(k: &mut Kernel, frame: crate::saved_state::SavedState)
    requires
        old(k).wf(),
        frame.sp % 16 == 0,
    ensures
        final(k).wf(),
        *final(k) == (Kernel { tasks: final(k).tasks, ..*old(k) }),
        final(k).tasks@ == old(k).tasks@.update(
            old(k).current as int,
            Task { save: frame, ..old(k).tasks@[old(k).current as int] },
        ),
{
    let current = k.current;
    k.tasks[current].save = frame;
    proof {
        assert(k.tasks@ =~= old(k).tasks@.update(
            current as int,
            Task { save: frame, ..old(k).tasks@[current as int] },
        ));
    }
}

/// The fault record a CPU exception cause converts to, if the cause is
/// an exception at all.
pub open spec fn spec_trap_fault(trap: Trap) -> Option<FaultInfo> {
    match trap {
        Trap::IllegalInstruction => Some(FaultInfo::IllegalInstruction),
        Trap::LoadFault(a) => Some(
            FaultInfo::MemoryAccess {
                address: Some(a),
                source: crate::abi::FaultSource::User,
            },
        ),
        Trap::StoreFault(a) => Some(
            FaultInfo::MemoryAccess {
                address: Some(a),
                source: crate::abi::FaultSource::User,
            },
        ),
        Trap::InstructionFault => Some(FaultInfo::IllegalText),
        _ => None,
    }
}

/// Whether `mid` is `pre` with the current task's program counter moved
/// past the environment-call instruction, wrapping at the top of the
/// address space, and nothing else changed.
pub open spec fn spec_advanced_pc(pre: Kernel, mid: Kernel) -> bool {
    let t = pre.tasks@[pre.current as int];
    &&& mid.tasks@ == pre.tasks@.update(
        pre.current as int,
        Task {
            save: crate::saved_state::SavedState {
                pc: vstd::wrapping::u32_specs::wrapping_add(t.save.pc, 4),
                ..t.save
            },
            ..t
        },
    )
    &&& mid.ram == pre.ram
    &&& mid.machine == pre.machine
    &&& mid.current == pre.current
    &&& mid.stamp == pre.stamp
    &&& mid.irq_map == pre.irq_map
    &&& mid.task_irq_map == pre.task_irq_map
    &&& mid.panic_message == pre.panic_message
    &&& mid.profiling == pre.profiling
}

/// The full effect of an environment-call trap: the caller's program
/// counter moves past the ecall instruction, the syscall named in its
/// register `a7` then runs under its full transition contract, and
/// whenever the hint asks for rescheduling the cooperative scheduling
/// rule decides who runs next.
pub open spec fn spec_envcall_step(pre: Kernel, post: Kernel) -> bool {
    exists|mid1: Kernel, mid2: Kernel, hint: NextTask|
        #![trigger spec_advanced_pc(pre, mid1), crate::ipc::spec_handle_syscall(mid1, mid2, hint)]
        {
            &&& spec_advanced_pc(pre, mid1)
            &&& crate::ipc::spec_handle_syscall(mid1, mid2, hint)
            &&& (hint == NextTask::Same ==> post == mid2)
            &&& (hint != NextTask::Same ==> spec_maybe_switch(mid2, post))
        }
}

/// Whoever the scheduling rule leaves current is runnable, unless nothing
/// is.
proof fn lemma_kept_or_selected_runnable(tasks: Seq<Task>, cur: int, new_cur: int)
    requires
        0 <= cur < tasks.len(),
        spec_kept_or_selected(tasks, cur, new_cur),
    ensures
        0 <= new_cur < tasks.len(),
        tasks[new_cur].is_runnable() || (forall|j: int|
            0 <= j < tasks.len() ==> !(#[trigger] tasks[j]).is_runnable()),
{
    if spec_preempts(tasks, cur) {
        if is_select_choice(tasks, new_cur) {
            assert(tasks[new_cur].is_runnable());
        }
    } else {
        assert(tasks[cur].is_runnable());
    }
}

/// The trap handler: branches on the trap cause into the timer path, the
/// platform interrupt path, the syscall dispatcher, or fault conversion,
/// each under its full transition contract, and leaves `current` on a
/// runnable task whenever one exists. The kernel's notion of time
/// advances exactly on the timer interrupt and never moves backwards.
pub fn trap_handler(k: &mut Kernel, trap: Trap)
    requires
        old(k).wf(),
        old(k).tasks@[old(k).current as int].is_runnable(),
        old(k).machine.ticks < u64::MAX,
        old(k).machine.mtimecmp + old(k).machine.clock_freq_khz <= u64::MAX,
        old(k).stamp < u64::MAX,
        trap == Trap::MachineExternal ==> old(k).irq_map.spec_get(PLIC_EXTERNAL_IRQ) matches Some(_),
        spec_trap_fault(trap) matches Some(_) ==> exists|j: int|
            0 <= j < old(k).tasks@.len() && j != old(k).current
                && (#[trigger] old(k).tasks@[j]).is_runnable(),
    ensures
        final(k).wf(),
        final(k).tasks@.len() == old(k).tasks@.len(),
        final(k).machine.ticks >= old(k).machine.ticks,
        trap != Trap::MachineTimer ==> final(k).machine.ticks == old(k).machine.ticks,
        trap == Trap::MachineTimer ==> spec_timer_tick(*old(k), *final(k)),
        trap == Trap::MachineExternal ==> spec_platform_interrupt(
            *old(k),
            *final(k),
            PLIC_EXTERNAL_IRQ,
        ),
        trap == Trap::UserEnvCall ==> spec_envcall_step(*old(k), *final(k)),
        spec_trap_fault(trap) matches Some(f) ==> final(k).tasks@
            == crate::task::spec_force_fault_tasks(old(k).tasks@, old(k).current as int, f)
            && final(k).current != old(k).current && is_select_choice(
            final(k).tasks@,
            final(k).current as int,
        ) && final(k).machine == old(k).machine && final(k).ram == old(k).ram
            && final(k).stamp == old(k).stamp && final(k).irq_map == old(k).irq_map
            && final(k).task_irq_map == old(k).task_irq_map && final(k).panic_message
            == old(k).panic_message && final(k).profiling
            == crate::profiling::spec_context_switch(old(k).profiling),
        final(k).tasks@[final(k).current as int].is_runnable() || (forall|j: int|
            0 <= j < final(k).tasks@.len() ==> !(#[trigger] final(k).tasks@[j]).is_runnable()),
{
    match trap {
        Trap::MachineTimer => {
            timer_handler(k);
            proof {
                let now = (old(k).machine.ticks + 1) as u64;
                let woke = exists|i: int|
                    0 <= i < old(k).tasks@.len() && timer_fires(#[trigger] old(k).tasks@[i], now)
                        && spec_fire_timer(old(k).tasks@[i]).1;
                if woke {
                    lemma_kept_or_selected_runnable(
                        k.tasks@,
                        old(k).current as int,
                        k.current as int,
                    );
                } else {
                    assert(k.current == old(k).current);
                    let cur = old(k).current as int;
                    if timer_fires(old(k).tasks@[cur], now) {
                        assert(k.tasks@[cur] == spec_fire_timer(old(k).tasks@[cur]).0);
                        assert(k.tasks@[cur].is_runnable());
                    } else {
                        assert(k.tasks@[cur] == old(k).tasks@[cur]);
                    }
                }
            }
        },
        Trap::MachineExternal => {
            platform_interrupt_handler(k, PLIC_EXTERNAL_IRQ);
            proof {
                let owner = old(k).irq_map.spec_get(PLIC_EXTERNAL_IRQ)->Some_0;
                let woke = spec_post(
                    old(k).tasks@[owner.task as int],
                    owner.notification,
                ).1;
                if woke {
                    lemma_kept_or_selected_runnable(
                        k.tasks@,
                        old(k).current as int,
                        k.current as int,
                    );
                } else {
                    assert(k.current == old(k).current);
                    let cur = old(k).current as int;
                    if cur == owner.task as int {
                        assert(k.tasks@[cur] == spec_post(
                            old(k).tasks@[cur],
                            owner.notification,
                        ).0);
                        assert(k.tasks@[cur].is_runnable());
                    } else {
                        assert(k.tasks@[cur] == old(k).tasks@[cur]);
                    }
                }
            }
        },
        Trap::UserEnvCall => {
            let current = k.current;
            let pc = k.tasks[current].save.pc;
            k.tasks[current].save.pc = pc.wrapping_add(4);
            proof {
                assert forall|i: int| 0 <= i < k.tasks@.len() implies task_wf(
                    #[trigger] k.tasks@[i],
                    i,
                    k.tasks@.len() as int,
                    k.ram,
                ) by {
                    assert(task_wf(old(k).tasks@[i], i, k.tasks@.len() as int, k.ram));
                }
                assert(k.tasks@ =~= old(k).tasks@.update(
                    old(k).current as int,
                    Task {
                        save: crate::saved_state::SavedState {
                            pc: vstd::wrapping::u32_specs::wrapping_add(
                                old(k).tasks@[old(k).current as int].save.pc,
                                4,
                            ),
                            ..old(k).tasks@[old(k).current as int].save
                        },
                        ..old(k).tasks@[old(k).current as int]
                    },
                ));
            }
            let ghost mid1 = *k;
            let hint = crate::ipc::handle_syscall(k);
            let ghost mid2 = *k;
            if hint != NextTask::Same {
                maybe_switch(k);
            }
            proof {
                assert(spec_advanced_pc(*old(k), mid1));
                assert(crate::ipc::spec_handle_syscall(mid1, mid2, hint));
                if hint != NextTask::Same {
                    lemma_kept_or_selected_runnable(
                        mid2.tasks@,
                        mid2.current as int,
                        k.current as int,
                    );
                }
                assert(spec_envcall_step(*old(k), *final(k)));
            }
        },
        Trap::IllegalInstruction => {
            handle_fault(k, FaultInfo::IllegalInstruction);
        },
        Trap::LoadFault(address) => {
            handle_fault(
                k,
                FaultInfo::MemoryAccess {
                    address: Some(address),
                    source: crate::abi::FaultSource::User,
                },
            );
        },
        Trap::StoreFault(address) => {
            handle_fault(
                k,
                FaultInfo::MemoryAccess {
                    address: Some(address),
                    source: crate::abi::FaultSource::User,
                },
            );
        },
        Trap::InstructionFault => {
            handle_fault(k, FaultInfo::IllegalText);
        },
    }
}

/// How one task changes when task `index` restarts with generation
/// `new_gen`: a task blocked on the restarted task — sending to it,
/// awaiting its reply, or in a closed receive naming it — resumes with the
/// dead-peer code; everyone else is untouched.
pub open spec fn spec_unblock_waiter(t: Task, index: int, new_gen: u8) -> Task {
    let woken = Task {
        state: TaskState::Healthy(SchedState::Runnable),
        save: crate::saved_state::SavedState {
            a0: (crate::abi::FIRST_DEAD_CODE + new_gen) as u32,
            a1: 0,
            ..t.save
        },
        ..t
    };
    match t.state {
        TaskState::Healthy(SchedState::InSendTo(p, _)) => if p.spec_index() == index {
            woken
        } else {
            t
        },
        TaskState::Healthy(SchedState::InReplyTo(p)) => if p.spec_index() == index {
            woken
        } else {
            t
        },
        TaskState::Healthy(SchedState::InRecv(Some(p))) => if p.spec_index() == index {
            woken
        } else {
            t
        },
        _ => t,
    }
}

/// The restarted task's block: generation bumped, registers and stack
/// reset to the boot state, timer and notifications cleared, runnable or
/// stopped as asked.
pub open spec fn spec_restarted_task(t: Task, new_gen: u8, start: bool) -> Task {
    Task {
        save: crate::saved_state::SavedState {
            sp: t.descriptor.initial_stack,
            pc: t.descriptor.entry_point,
            ..crate::saved_state::SavedState::spec_zeroed()
        },
        state: TaskState::Healthy(
            if start {
                SchedState::Runnable
            } else {
                SchedState::Stopped
            },
        ),
        timer: crate::task::TaskTimer { deadline: None, to_post: 0 },
        notifications_posted: 0,
        notifications_enabled: 0,
        generation: new_gen,
        queue_stamp: 0,
        ..t
    }
}

/// Restarts task `index`, the supervisor's recovery action: its
/// generation is bumped so outstanding identifiers go stale, its
/// registers and stack return to the boot state, and every task blocked
/// on it resumes with the dead-peer code instead of waiting forever.
pub fn restart_task(k: &mut Kernel, index: usize, start: bool)
    requires
        old(k).wf(),
        index < old(k).tasks@.len(),
    ensures
        final(k).wf(),
        final(k).machine == old(k).machine,
        final(k).current == old(k).current,
        final(k).stamp == old(k).stamp,
        final(k).irq_map == old(k).irq_map,
        final(k).task_irq_map == old(k).task_irq_map,
        final(k).panic_message == old(k).panic_message,
        final(k).profiling == old(k).profiling,
        final(k).tasks@.len() == old(k).tasks@.len(),
        ({
            let new_gen = ((old(k).tasks@[index as int].generation + 1) as u8) & GENERATION_MASK;
            &&& final(k).tasks@[index as int] == spec_restarted_task(
                old(k).tasks@[index as int],
                new_gen,
                start,
            )
            &&& forall|j: int|
                0 <= j < old(k).tasks@.len() && j != index
                    ==> final(k).tasks@[j] == spec_unblock_waiter(
                        #[trigger] old(k).tasks@[j],
                        index as int,
                        new_gen,
                    )
        }),
        final(k).ram.base == old(k).ram.base,
        final(k).ram.mem().len() == old(k).ram.mem().len(),
        forall|a: int|
            crate::arch::paint_covers(
                old(k).tasks@[index as int].region_table@,
                old(k).tasks@[index as int].descriptor.initial_stack,
                a,
            ) ==> final(k).ram.mem()[old(k).ram.off(a)] == crate::umem::paint_byte(a),
        forall|j: int|
            0 <= j < old(k).ram.mem().len() && !crate::arch::paint_covers(
                old(k).tasks@[index as int].region_table@,
                old(k).tasks@[index as int].descriptor.initial_stack,
                j + old(k).ram.base,
            ) ==> final(k).ram.mem()[j] == old(k).ram.mem()[j],
{
    let ghost len = old(k).tasks@.len() as int;
    let new_gen = (k.tasks[index].generation + 1) & GENERATION_MASK;
    proof {
        let g = old(k).tasks@[index as int].generation;
        assert(g <= 0x3f ==> (((g + 1) as u8) & 0x3f) <= 0x3f) by (bit_vector);
    }
    k.tasks[index].generation = new_gen;
    k.tasks[index].notifications_posted = 0;
    k.tasks[index].notifications_enabled = 0;
    k.tasks[index].timer = crate::task::TaskTimer { deadline: None, to_post: 0 };
    k.tasks[index].queue_stamp = 0;
    proof {
        let t = k.tasks@[index as int];
        assert(task_wf(old(k).tasks@[index as int], index as int, len, old(k).ram));
        assert forall|j: int|
            0 <= j < t.region_table@.len() && crate::arch::paints_region(
                #[trigger] t.region_table@[j],
                t.descriptor.initial_stack,
            ) implies t.region_table@[j].attributes & REGION_WRITE != 0
            && old(k).ram.spec_contains(
            t.region_table@[j].base as int,
            t.descriptor.initial_stack - t.region_table@[j].base,
        ) by {
            let a = t.region_table@[j].attributes;
            assert(a & 2u32 != 0 ==> a & (1u32 | 2u32) != 0) by (bit_vector);
            assert(old(k).ram.spec_contains(
                t.region_table@[j].base as int,
                t.region_table@[j].size as int,
            ));
        }
    }
    crate::arch::reinitialize(&mut k.tasks[index], &mut k.ram);
    k.tasks[index].state = TaskState::Healthy(
        if start {
            SchedState::Runnable
        } else {
            SchedState::Stopped
        },
    );
    proof {
        assert(k.tasks@[index as int] == spec_restarted_task(
            old(k).tasks@[index as int],
            new_gen,
            start,
        ));
    }

    let rc = crate::abi::dead_response_code(new_gen);
    let idx16 = k.tasks[index].descriptor.index;
    let mut j: usize = 0;
    let ghost mid_tasks = k.tasks@;
    let ghost mid_ram = k.ram;
    proof {
        assert(mid_tasks =~= old(k).tasks@.update(
            index as int,
            spec_restarted_task(old(k).tasks@[index as int], new_gen, start),
        ));
    }
    while j < k.tasks.len()
        invariant
            old(k).wf(),
            len == old(k).tasks@.len(),
            j <= len,
            k.tasks@.len() == len,
            index < len,
            k.ram == mid_ram,
            mid_ram.wf(),
            mid_ram.base == old(k).ram.base,
            mid_ram.mem().len() == old(k).ram.mem().len(),
            rc == crate::abi::FIRST_DEAD_CODE + new_gen,
            idx16 as int == index as int,
            k.machine == old(k).machine,
            k.current == old(k).current,
            k.stamp == old(k).stamp,
            k.irq_map == old(k).irq_map,
            k.task_irq_map == old(k).task_irq_map,
            k.panic_message == old(k).panic_message,
            k.profiling == old(k).profiling,
            k.tasks@[index as int] == mid_tasks[index as int],
            mid_tasks.len() == len,
            new_gen == ((old(k).tasks@[index as int].generation + 1) as u8) & GENERATION_MASK,
            mid_tasks == old(k).tasks@.update(
                index as int,
                spec_restarted_task(old(k).tasks@[index as int], new_gen, start),
            ),
            forall|a: int|
                crate::arch::paint_covers(
                    old(k).tasks@[index as int].region_table@,
                    old(k).tasks@[index as int].descriptor.initial_stack,
                    a,
                ) ==> mid_ram.mem()[old(k).ram.off(a)] == crate::umem::paint_byte(a),
            forall|i: int|
                0 <= i < old(k).ram.mem().len() && !crate::arch::paint_covers(
                    old(k).tasks@[index as int].region_table@,
                    old(k).tasks@[index as int].descriptor.initial_stack,
                    i + old(k).ram.base,
                ) ==> mid_ram.mem()[i] == old(k).ram.mem()[i],
            forall|i: int| j <= i < len ==> k.tasks@[i] == mid_tasks[i],
            forall|i: int|
                0 <= i < j && i != index
                    ==> k.tasks@[i] == spec_unblock_waiter(
                        #[trigger] mid_tasks[i],
                        index as int,
                        new_gen,
                    ),
            forall|i: int|
                0 <= i < len ==> task_wf(#[trigger] mid_tasks[i], i, len, mid_ram)
                    || (i == index as int),
            task_wf(mid_tasks[index as int], index as int, len, mid_ram),
            forall|i: int|
                0 <= i < j ==> task_wf(#[trigger] k.tasks@[i], i, len, mid_ram),
        decreases len - j,
    {
        if j != index {
            let hits = match k.tasks[j].state {
                TaskState::Healthy(SchedState::InSendTo(p, _)) => p.index() == idx16,
                TaskState::Healthy(SchedState::InReplyTo(p)) => p.index() == idx16,
                TaskState::Healthy(SchedState::InRecv(Some(p))) => p.index() == idx16,
                _ => false,
            };
            if hits {
                k.tasks[j].state = TaskState::Healthy(SchedState::Runnable);
                k.tasks[j].save.a0 = rc;
                k.tasks[j].save.a1 = 0;
            }
            proof {
                if j as int != index as int {
                    assert(task_wf(mid_tasks[j as int], j as int, len, mid_ram));
                    assert(k.tasks@[j as int] == spec_unblock_waiter(
                        mid_tasks[j as int],
                        index as int,
                        new_gen,
                    ));
                    assert(task_wf(k.tasks@[j as int], j as int, len, mid_ram));
                }
            }
        }
        j = j + 1;
    }
    proof {
        assert forall|i: int| 0 <= i < len && i != index implies k.tasks@[i]
            == spec_unblock_waiter(#[trigger] old(k).tasks@[i], index as int, new_gen) by {
            assert(mid_tasks[i] == old(k).tasks@[i]);
            assert(k.tasks@[i] == spec_unblock_waiter(mid_tasks[i], index as int, new_gen));
        }
        assert forall|i: int| 0 <= i < len implies task_wf(
            #[trigger] k.tasks@[i],
            i,
            len,
            k.ram,
        ) by {
            if i == index as int {
                assert(k.tasks@[i] == mid_tasks[i]);
                assert(task_wf(mid_tasks[index as int], index as int, len, mid_ram));
            }
        }
        assert(k.tasks@[0].descriptor == old(k).tasks@[0].descriptor);
        assert forall|i: int| 1 <= i < len implies (#[trigger] k.tasks@[i]).priority()
            >= 1 by {
            assert(k.tasks@[i].descriptor == old(k).tasks@[i].descriptor);
        }
    }
}

/// Whether address `a` is painted by one of the first `n` tasks' stacks
/// at boot.
pub open spec fn boot_paint_covers_upto(
    descs: Seq<crate::abi::TaskDesc>,
    rts: Seq<Vec<RegionDesc>>,
    n: int,
    a: int,
) -> bool {
    exists|i: int|
        0 <= i < n && i < descs.len() && crate::arch::paint_covers(
            (#[trigger] rts[i])@,
            descs[i].initial_stack,
            a,
        )
}

/// Whether address `a` is painted by any task's stack at boot.
pub open spec fn boot_paint_covers(
    descs: Seq<crate::abi::TaskDesc>,
    rts: Seq<Vec<RegionDesc>>,
    a: int,
) -> bool {
    boot_paint_covers_upto(descs, rts, descs.len() as int, a)
}

/// Extending the booted prefix by one task extends the painted set by
/// exactly that task's stack paint.
proof fn lemma_boot_paint_step(
    descs: Seq<crate::abi::TaskDesc>,
    rts: Seq<Vec<RegionDesc>>,
    n: int,
    a: int,
)
    requires
        0 <= n < descs.len(),
        rts.len() == descs.len(),
    ensures
        boot_paint_covers_upto(descs, rts, n + 1, a)
            <==> (boot_paint_covers_upto(descs, rts, n, a) || crate::arch::paint_covers(
                rts[n]@,
                descs[n].initial_stack,
                a,
            )),
{
    if boot_paint_covers_upto(descs, rts, n + 1, a) {
        let i = choose|i: int|
            0 <= i < n + 1 && i < descs.len() && crate::arch::paint_covers(
                (#[trigger] rts[i])@,
                descs[i].initial_stack,
                a,
            );
        if i < n {
            assert(boot_paint_covers_upto(descs, rts, n, a));
        }
    }
    if crate::arch::paint_covers(rts[n]@, descs[n].initial_stack, a) {
        assert(boot_paint_covers_upto(descs, rts, n + 1, a));
    }
    if boot_paint_covers_upto(descs, rts, n, a) {
        let i = choose|i: int|
            0 <= i < n && i < descs.len() && crate::arch::paint_covers(
                (#[trigger] rts[i])@,
                descs[i].initial_stack,
                a,
            );
        assert(boot_paint_covers_upto(descs, rts, n + 1, a));
    }
}

/// A task's control block as boot builds it: registers zeroed but for the
/// stack pointer and entry point, stopped unless flagged to start, timer
/// and notifications clear, generation zero.
pub open spec fn spec_boot_task(d: crate::abi::TaskDesc, rt: Vec<RegionDesc>) -> Task {
    Task {
        save: crate::saved_state::SavedState {
            sp: d.initial_stack,
            pc: d.entry_point,
            ..crate::saved_state::SavedState::spec_zeroed()
        },
        descriptor: d,
        state: TaskState::Healthy(
            if d.flags & crate::abi::START_AT_BOOT != 0 {
                SchedState::Runnable
            } else {
                SchedState::Stopped
            },
        ),
        timer: crate::task::TaskTimer { deadline: None, to_post: 0 },
        notifications_posted: 0,
        notifications_enabled: 0,
        generation: 0,
        region_table: rt,
        queue_stamp: 0,
    }
}

/// Whether an application descriptor is one the kernel will boot: a
/// populated task table led by the priority zero supervisor, every stack
/// top 16-byte aligned inside a writable region, every region encodable
/// in the protection unit and, when readable or writable, inside the RAM
/// window, and collision-free routing tables naming real tasks and
/// maskable lines.
pub open spec fn config_ok(
    descs: Seq<crate::abi::TaskDesc>,
    rts: Seq<Vec<RegionDesc>>,
    ram: UserRam,
    irq_map: IrqOwnerTable,
    task_irq_map: TaskIrqTable,
) -> bool {
    &&& 0 < descs.len() <= MAX_TASKS
    &&& rts.len() == descs.len()
    &&& ram.wf()
    &&& forall|i: int| 0 <= i < descs.len() ==> (#[trigger] descs[i]).index == i
    &&& descs[0].priority == 0
    &&& forall|i: int| 1 <= i < descs.len() ==> (#[trigger] descs[i]).priority >= 1
    &&& forall|i: int| 0 <= i < descs.len() ==> (#[trigger] descs[i]).initial_stack % 16 == 0
    &&& forall|i: int| 0 <= i < rts.len() ==> (#[trigger] rts[i])@.len() <= REGIONS_PER_TASK
    &&& forall|i: int, j: int|
        0 <= i < rts.len() && 0 <= j < rts[i]@.len()
            ==> (#[trigger] rts[i]@[j]).wf() && crate::arch::pmp_encodable(rts[i]@[j].attributes)
    &&& forall|i: int, j: int|
        0 <= i < rts.len() && 0 <= j < rts[i]@.len()
            && (#[trigger] rts[i]@[j]).attributes & (REGION_READ | REGION_WRITE) != 0
            ==> ram.spec_contains(rts[i]@[j].base as int, rts[i]@[j].size as int)
    &&& forall|i: int, j: int|
        0 <= i < rts.len() && 0 <= j < rts[i]@.len() && i < descs.len()
            && crate::arch::paints_region(#[trigger] rts[i]@[j], descs[i].initial_stack)
            ==> rts[i]@[j].attributes & REGION_WRITE != 0
    &&& spec_has_unique_idle(descs)
    &&& irq_map.wf()
    &&& task_irq_map.wf()
    &&& forall|n: u32|
        #[trigger] irq_map.spec_get(n) matches Some(owner) ==> owner.task < descs.len()
    &&& forall|o: crate::abi::InterruptOwner|
        #[trigger] task_irq_map.spec_get(o) matches Some(irqs)
            ==> forall|j: int| 0 <= j < irqs.len() ==> (#[trigger] irqs[j]).0 < 32
    &&& forall|o: crate::abi::InterruptOwner|
        #[trigger] task_irq_map.spec_get(o) matches Some(irqs)
            ==> forall|j: int|
                0 <= j < irqs.len() ==> irq_map.spec_get((#[trigger] irqs[j]).0) == Some(o)
}

/// Whether task `i` is the application's idle task: flagged to start at
/// boot, and alone at the largest priority value, so that it is the least
/// urgent task and something is always left to run.
pub open spec fn spec_idle_at(descs: Seq<crate::abi::TaskDesc>, i: int) -> bool {
    &&& 0 <= i < descs.len()
    &&& descs[i].flags & crate::abi::START_AT_BOOT != 0
    &&& forall|j: int|
        0 <= j < descs.len() ==> (#[trigger] descs[j]).priority <= descs[i].priority
    &&& forall|j: int|
        0 <= j < descs.len() && j != i ==> (#[trigger] descs[j]).priority < descs[i].priority
}

/// Whether exactly one task is the idle task: some index satisfies
/// `spec_idle_at`, which strict maximality makes unique.
pub open spec fn spec_has_unique_idle(descs: Seq<crate::abi::TaskDesc>) -> bool {
    exists|i: int| spec_idle_at(descs, i)
}

impl Kernel {
    /// Boots a kernel from an application descriptor: the configuration is
    /// checked in full — the kernel refuses to start on a bad one rather
    /// than run with it — then every task is laid out at its entry point
    /// with a painted stack, stopped unless flagged to start at boot, with
    /// the supervisor as the initial current task.
    pub fn new(
        descs: Vec<crate::abi::TaskDesc>,
        region_tables: Vec<Vec<RegionDesc>>,
        ram: UserRam,
        irq_map: IrqOwnerTable,
        task_irq_map: TaskIrqTable,
    ) -> (r: Result<Kernel, ()>)
        ensures
            r is Ok <==> config_ok(descs@, region_tables@, ram, irq_map, task_irq_map),
            match r {
                Ok(k) => {
                    &&& k.wf()
                    &&& k.tasks@.len() == descs@.len()
                    &&& forall|i: int|
                        0 <= i < descs@.len()
                            ==> k.tasks@[i] == spec_boot_task(
                                descs@[i],
                                #[trigger] region_tables@[i],
                            )
                    &&& k.current == 0
                    &&& k.stamp == 0
                    &&& k.machine == (crate::arch::Machine {
                        clock_freq_khz: 0,
                        mtime: 0,
                        mtimecmp: 0,
                        mie: 0,
                        mpp_user: false,
                        mepc: 0,
                        ticks: 0,
                    })
                    &&& k.irq_map == irq_map
                    &&& k.task_irq_map == task_irq_map
                    &&& k.panic_message@.len() == 0
                    &&& k.profiling == (crate::profiling::EventsTable {
                        enabled: false,
                        syscall_enter: 0,
                        syscall_exit: 0,
                        secondary_syscall_enter: 0,
                        secondary_syscall_exit: 0,
                        isr_enter: 0,
                        isr_exit: 0,
                        timer_isr_enter: 0,
                        timer_isr_exit: 0,
                        context_switch: 0,
                    })
                    &&& k.ram.base == ram.base
                    &&& k.ram.mem().len() == ram.mem().len()
                    &&& forall|j: int|
                        0 <= j < ram.mem().len() && boot_paint_covers(
                            descs@,
                            region_tables@,
                            j + ram.base,
                        ) ==> k.ram.mem()[j] == crate::umem::paint_byte(j + ram.base)
                    &&& forall|j: int|
                        0 <= j < ram.mem().len() && !boot_paint_covers(
                            descs@,
                            region_tables@,
                            j + ram.base,
                        ) ==> k.ram.mem()[j] == ram.mem()[j]
                },
                Err(()) => true,
            },
    {
        let n = descs.len();
        if n == 0 || n > MAX_TASKS {
            return Err(());
        }
        if region_tables.len() != n {
            return Err(());
        }
        if ram.bytes.len() as u64 > 0x1_0000_0000u64 {
            return Err(());
        }
        if ram.base as u64 + ram.bytes.len() as u64 > 0x1_0000_0000u64 {
            return Err(());
        }

        let mut i: usize = 0;
        while i < n
            invariant
                n == descs@.len(),
                i <= n,
                forall|x: int| 0 <= x < i ==> (#[trigger] descs@[x]).index == x,
                forall|x: int| 0 <= x < i ==> (#[trigger] descs@[x]).initial_stack % 16 == 0,
                i > 0 ==> descs@[0].priority == 0,
                forall|x: int| 1 <= x < i ==> (#[trigger] descs@[x]).priority >= 1,
            decreases n - i,
        {
            if descs[i].index as usize != i {
                return Err(());
            }
            if descs[i].initial_stack % 16 != 0 {
                return Err(());
            }
            if i == 0 {
                if descs[i].priority != 0 {
                    return Err(());
                }
            } else {
                if descs[i].priority == 0 {
                    return Err(());
                }
            }
            i = i + 1;
        }

        let mut i: usize = 0;
        while i < n
            invariant
                n == descs@.len(),
                region_tables@.len() == n,
                ram.wf(),
                i <= n,
                forall|x: int| 0 <= x < i ==> (#[trigger] region_tables@[x])@.len() <= 8,
                forall|x: int, j: int|
                    0 <= x < i && 0 <= j < region_tables@[x]@.len()
                        ==> (#[trigger] region_tables@[x]@[j]).wf()
                            && crate::arch::pmp_encodable(region_tables@[x]@[j].attributes),
                forall|x: int, j: int|
                    0 <= x < i && 0 <= j < region_tables@[x]@.len()
                        && (#[trigger] region_tables@[x]@[j]).attributes & (REGION_READ
                        | REGION_WRITE) != 0
                        ==> ram.spec_contains(
                            region_tables@[x]@[j].base as int,
                            region_tables@[x]@[j].size as int,
                        ),
                forall|x: int, j: int|
                    0 <= x < i && 0 <= j < region_tables@[x]@.len()
                        && crate::arch::paints_region(
                        #[trigger] region_tables@[x]@[j],
                        descs@[x].initial_stack,
                    ) ==> region_tables@[x]@[j].attributes & REGION_WRITE != 0,
            decreases n - i,
        {
            if region_tables[i].len() > REGIONS_PER_TASK {
                return Err(());
            }
            let stack = descs[i].initial_stack;
            let mut j: usize = 0;
            while j < region_tables[i].len()
                invariant
                    n == descs@.len(),
                    region_tables@.len() == n,
                    ram.wf(),
                    i < n,
                    stack == descs@[i as int].initial_stack,
                    j <= region_tables@[i as int]@.len(),
                    forall|y: int|
                        0 <= y < j ==> (#[trigger] region_tables@[i as int]@[y]).wf()
                            && crate::arch::pmp_encodable(
                            region_tables@[i as int]@[y].attributes,
                        ),
                    forall|y: int|
                        0 <= y < j && (#[trigger] region_tables@[i as int]@[y]).attributes & (
                        REGION_READ | REGION_WRITE) != 0 ==> ram.spec_contains(
                            region_tables@[i as int]@[y].base as int,
                            region_tables@[i as int]@[y].size as int,
                        ),
                    forall|y: int|
                        0 <= y < j && crate::arch::paints_region(
                            #[trigger] region_tables@[i as int]@[y],
                            descs@[i as int].initial_stack,
                        ) ==> region_tables@[i as int]@[y].attributes & REGION_WRITE != 0,
                decreases region_tables@[i as int]@.len() - j,
            {
                let r = region_tables[i][j];
                if r.base % 4 != 0 || r.size % 4 != 0 {
                    return Err(());
                }
                if r.base as u64 + r.size as u64 > 0x1_0000_0000u64 {
                    return Err(());
                }
                let low = r.attributes & 0b111;
                if low == 0b010 || low == 0b110 {
                    return Err(());
                }
                if r.attributes & (REGION_READ | REGION_WRITE) != 0 {
                    if !ram.contains(r.base, r.size) {
                        return Err(());
                    }
                }
                if stack >= r.base && stack as u64 <= r.base as u64 + r.size as u64 {
                    if r.attributes & REGION_WRITE == 0 {
                        return Err(());
                    }
                }
                j = j + 1;
            }
            i = i + 1;
        }

        if !irq_table_wf_check(&irq_map) {
            return Err(());
        }
        if !task_irq_table_wf_check(&task_irq_map) {
            return Err(());
        }
        if !irq_owners_in_range(&irq_map, n) {
            return Err(());
        }
        if !task_irq_lines_maskable(&task_irq_map) {
            return Err(());
        }
        if !tables_mutually_inverse(&irq_map, &task_irq_map) {
            return Err(());
        }
        if !has_unique_idle(&descs) {
            return Err(());
        }

        let mut ram = ram;
        let ghost ram0 = ram;
        let mut region_tables = region_tables;
        let ghost rts0 = region_tables@;
        let mut tasks: Vec<Task> = Vec::new();
        let mut i: usize = 0;
        while i < n
            invariant
                n == descs@.len(),
                rts0.len() == n,
                i <= n,
                tasks@.len() == i,
                region_tables@ == rts0.skip(i as int),
                config_ok(descs@, rts0, ram0, irq_map, task_irq_map),
                ram.wf(),
                ram.base == ram0.base,
                ram.mem().len() == ram0.mem().len(),
                forall|x: int|
                    0 <= x < i ==> tasks@[x] == spec_boot_task(
                        descs@[x],
                        #[trigger] rts0[x],
                    ),
                forall|j: int|
                    0 <= j < ram0.mem().len() && boot_paint_covers_upto(
                        descs@,
                        rts0,
                        i as int,
                        j + ram0.base,
                    ) ==> ram.mem()[j] == crate::umem::paint_byte(j + ram0.base),
                forall|j: int|
                    0 <= j < ram0.mem().len() && !boot_paint_covers_upto(
                        descs@,
                        rts0,
                        i as int,
                        j + ram0.base,
                    ) ==> ram.mem()[j] == ram0.mem()[j],
            decreases n - i,
        {
            let rt = region_tables.remove(0);
            proof {
                assert(rt == rts0[i as int]);
                assert(region_tables@ =~= rts0.skip(i as int + 1));
            }
            let mut t = Task {
                save: crate::saved_state::SavedState::zeroed(),
                descriptor: descs[i],
                state: TaskState::Healthy(SchedState::Stopped),
                timer: crate::task::TaskTimer { deadline: None, to_post: 0 },
                notifications_posted: 0,
                notifications_enabled: 0,
                generation: 0,
                region_table: rt,
                queue_stamp: 0,
            };
            proof {
                assert forall|j: int|
                    0 <= j < t.region_table@.len() && crate::arch::paints_region(
                        #[trigger] t.region_table@[j],
                        t.descriptor.initial_stack,
                    ) implies t.region_table@[j].attributes & REGION_WRITE != 0
                    && ram.spec_contains(
                    t.region_table@[j].base as int,
                    t.descriptor.initial_stack - t.region_table@[j].base,
                ) by {
                    let a = t.region_table@[j].attributes;
                    assert(a & 2u32 != 0 ==> a & (1u32 | 2u32) != 0) by (bit_vector);
                    assert(ram0.spec_contains(
                        t.region_table@[j].base as int,
                        t.region_table@[j].size as int,
                    ));
                }
            }
            let ghost pre_ram = ram;
            crate::arch::reinitialize(&mut t, &mut ram);
            if descs[i].flags & crate::abi::START_AT_BOOT != 0 {
                t.state = TaskState::Healthy(SchedState::Runnable);
            }
            proof {
                assert(t == spec_boot_task(descs@[i as int], rts0[i as int]));
            }
            tasks.push(t);
            proof {
                assert forall|a: int|
                    boot_paint_covers_upto(descs@, rts0, i + 1, a) <==> (
                    boot_paint_covers_upto(descs@, rts0, i as int, a)
                        || crate::arch::paint_covers(
                        rts0[i as int]@,
                        descs@[i as int].initial_stack,
                        a,
                    )) by {
                    lemma_boot_paint_step(descs@, rts0, i as int, a);
                }
                assert forall|j: int|
                    0 <= j < ram0.mem().len() && boot_paint_covers_upto(
                        descs@,
                        rts0,
                        i + 1,
                        j + ram0.base,
                    ) implies ram.mem()[j] == crate::umem::paint_byte(j + ram0.base) by {
                    let a = j + ram0.base;
                    if crate::arch::paint_covers(
                        rts0[i as int]@,
                        descs@[i as int].initial_stack,
                        a,
                    ) {
                        assert(ram.mem()[pre_ram.off(a)] == crate::umem::paint_byte(a));
                        assert(pre_ram.off(a) == j);
                    } else {
                        assert(boot_paint_covers_upto(descs@, rts0, i as int, a));
                        assert(pre_ram.mem()[j] == crate::umem::paint_byte(a));
                        assert(!crate::arch::paint_covers(
                            rts0[i as int]@,
                            descs@[i as int].initial_stack,
                            j + pre_ram.base,
                        ));
                        assert(ram.mem()[j] == pre_ram.mem()[j]);
                    }
                }
                assert forall|j: int|
                    0 <= j < ram0.mem().len() && !boot_paint_covers_upto(
                        descs@,
                        rts0,
                        i + 1,
                        j + ram0.base,
                    ) implies ram.mem()[j] == ram0.mem()[j] by {
                    assert(!crate::arch::paint_covers(
                        rts0[i as int]@,
                        descs@[i as int].initial_stack,
                        j + pre_ram.base,
                    ));
                    assert(ram.mem()[j] == pre_ram.mem()[j]);
                    assert(!boot_paint_covers_upto(descs@, rts0, i as int, j + ram0.base));
                }
            }
            i = i + 1;
        }

        let k = Kernel {
            tasks,
            ram,
            machine: crate::arch::Machine {
                clock_freq_khz: 0,
                mtime: 0,
                mtimecmp: 0,
                mie: 0,
                mpp_user: false,
                mepc: 0,
                ticks: 0,
            },
            current: 0,
            stamp: 0,
            irq_map,
            task_irq_map,
            panic_message: Vec::new(),
            profiling: crate::profiling::EventsTable::new(),
        };
        proof {
            assert forall|x: int| 0 <= x < k.tasks@.len() implies task_wf(
                #[trigger] k.tasks@[x],
                x,
                k.tasks@.len() as int,
                k.ram,
            ) by {
                assert(k.tasks@[x] == spec_boot_task(descs@[x], rts0[x]));
            }
            assert(k.tasks@[0] == spec_boot_task(descs@[0], rts0[0]));
            assert(k.tasks@[0].priority() == descs@[0].priority);
            assert forall|x: int| 1 <= x < k.tasks@.len() implies (#[trigger] k.tasks@[x])
                .priority() >= 1 by {
                assert(k.tasks@[x] == spec_boot_task(descs@[x], rts0[x]));
                assert(descs@[x].priority >= 1);
            }
        }
        Ok(k)
    }
}


/// Checks that every interrupt line the reverse table records for an
/// owner is routed back to that same owner by the forward table: the two
/// tables are mutual inverses.
fn tables_mutually_inverse(fwd: &IrqOwnerTable, rev: &TaskIrqTable) -> (ok: bool)
    requires
        rev.wf(),
    ensures
        ok == (forall|o: crate::abi::InterruptOwner|
            #[trigger] rev.spec_get(o) matches Some(irqs)
                ==> forall|j: int|
                    0 <= j < irqs.len() ==> fwd.spec_get((#[trigger] irqs[j]).0) == Some(o)),
{
    let m = rev.slots.len();
    let mut i: usize = 0;
    while i < m
        invariant
            rev.wf(),
            m == rev.slots@.len(),
            i <= m,
            forall|x: int|
                0 <= x < i ==> match #[trigger] rev.slots@[x] {
                    Some((o, irqs)) => forall|j: int|
                        0 <= j < irqs@.len() ==> fwd.spec_get((#[trigger] irqs@[j]).0)
                            == Some(o),
                    None => true,
                },
        decreases m - i,
    {
        let bad = match &rev.slots[i] {
            Some((owner, irqs)) => {
                let mut j: usize = 0;
                let mut found = false;
                while j < irqs.len()
                    invariant
                        j <= irqs@.len(),
                        !found ==> forall|y: int|
                            0 <= y < j ==> fwd.spec_get((#[trigger] irqs@[y]).0)
                                == Some(*owner),
                        found ==> exists|y: int|
                            0 <= y < irqs@.len() && fwd.spec_get((#[trigger] irqs@[y]).0)
                                != Some(*owner),
                    decreases irqs@.len() - j,
                {
                    let back = fwd.get(irqs[j]);
                    let hit = match back {
                        Some(o2) => o2.task == owner.task
                            && o2.notification == owner.notification,
                        None => false,
                    };
                    if !hit {
                        found = true;
                    }
                    j = j + 1;
                }
                proof {
                    if found {
                        assert(crate::interrupts::owner_slot(*owner, m as int) == i as int);
                        assert(rev.spec_get(*owner) == Some(irqs@));
                        assert(!(forall|o: crate::abi::InterruptOwner|
                            #[trigger] rev.spec_get(o) matches Some(ir)
                                ==> forall|y: int|
                                    0 <= y < ir.len() ==> fwd.spec_get((#[trigger] ir[y]).0)
                                        == Some(o))) by {
                            let y = choose|y: int|
                                0 <= y < irqs@.len() && fwd.spec_get(
                                    (#[trigger] irqs@[y]).0,
                                ) != Some(*owner);
                            assert(rev.spec_get(*owner) == Some(irqs@));
                            assert(fwd.spec_get((rev.spec_get(*owner)->Some_0)[y].0)
                                != Some(*owner));
                        }
                    }
                }
                found
            },
            None => false,
        };
        if bad {
            return false;
        }
        i = i + 1;
    }
    proof {
        assert forall|o: crate::abi::InterruptOwner| #[trigger] rev.spec_get(o) is Some
            implies (forall|j: int|
            0 <= j < rev.spec_get(o)->Some_0.len() ==> fwd.spec_get(
                (#[trigger] rev.spec_get(o)->Some_0[j]).0,
            ) == Some(o)) by {
            if m > 0 {
                let x = crate::interrupts::owner_slot(o, m as int);
                assert(0 <= x < m);
                assert(match rev.slots@[x] {
                    Some((o2, irqs)) => forall|j: int|
                        0 <= j < irqs@.len() ==> fwd.spec_get((#[trigger] irqs@[j]).0)
                            == Some(o2),
                    None => true,
                });
            }
        }
    }
    true
}

/// Checks that exactly one task stands alone at the largest priority
/// value and is flagged to start at boot: the application's idle task.
fn has_unique_idle(descs: &Vec<crate::abi::TaskDesc>) -> (ok: bool)
    requires
        descs@.len() > 0,
    ensures
        ok == spec_has_unique_idle(descs@),
{
    let mut max_i: usize = 0;
    let mut i: usize = 1;
    while i < descs.len()
        invariant
            1 <= i <= descs@.len(),
            (max_i as int) < i,
            forall|j: int|
                0 <= j < i ==> (#[trigger] descs@[j]).priority <= descs@[max_i as int].priority,
            forall|j: int|
                0 <= j < max_i ==> (#[trigger] descs@[j]).priority
                    < descs@[max_i as int].priority,
        decreases descs@.len() - i,
    {
        if descs[i].priority > descs[max_i].priority {
            max_i = i;
        }
        i = i + 1;
    }
    let max_prio = descs[max_i].priority;
    let mut unique = true;
    let mut j: usize = 0;
    while j < descs.len()
        invariant
            j <= descs@.len(),
            max_i < descs@.len(),
            max_prio == descs@[max_i as int].priority,
            forall|x: int|
                0 <= x < descs@.len() ==> (#[trigger] descs@[x]).priority <= max_prio,
            unique ==> forall|x: int|
                0 <= x < j && x != max_i ==> (#[trigger] descs@[x]).priority < max_prio,
            !unique ==> exists|x: int|
                0 <= x < descs@.len() && x != max_i && (#[trigger] descs@[x]).priority
                    == max_prio,
        decreases descs@.len() - j,
    {
        if j != max_i && descs[j].priority == max_prio {
            unique = false;
        }
        j = j + 1;
    }
    let flagged = descs[max_i].flags & crate::abi::START_AT_BOOT != 0;
    if unique && flagged {
        proof {
            assert(spec_idle_at(descs@, max_i as int));
        }
        true
    } else {
        proof {
            assert forall|c: int| !spec_idle_at(descs@, c) by {
                if spec_idle_at(descs@, c) {
                    assert(descs@[max_i as int].priority <= descs@[c].priority);
                    if c != max_i {
                        assert(descs@[max_i as int].priority < descs@[c].priority);
                        assert(descs@[c].priority <= max_prio);
                        assert(false);
                    } else {
                        if !unique {
                            let x = choose|x: int|
                                0 <= x < descs@.len() && x != max_i
                                    && (#[trigger] descs@[x]).priority == max_prio;
                            assert(descs@[x].priority < descs@[c].priority);
                            assert(false);
                        } else {
                            assert(!flagged);
                            assert(descs@[c].flags & crate::abi::START_AT_BOOT != 0);
                            assert(false);
                        }
                    }
                }
            }
        }
        false
    }
}

/// Checks the hash discipline of the interrupt-owner table.
fn irq_table_wf_check(t: &IrqOwnerTable) -> (ok: bool)
    ensures
        ok == t.wf(),
{
    let m = t.slots.len();
    let mut i: usize = 0;
    while i < m
        invariant
            m == t.slots@.len(),
            i <= m,
            forall|x: int|
                0 <= x < i ==> match #[trigger] t.slots@[x] {
                    Some((key, _)) => key.0 as int % m as int == x,
                    None => true,
                },
        decreases m - i,
    {
        match t.slots[i] {
            Some((key, _)) => {
                if (key.0 as usize) % m != i {
                    return false;
                }
            },
            None => {},
        }
        i = i + 1;
    }
    true
}

/// Checks the hash discipline of the reverse routing table.
fn task_irq_table_wf_check(t: &TaskIrqTable) -> (ok: bool)
    ensures
        ok == t.wf(),
{
    let m = t.slots.len();
    let mut i: usize = 0;
    while i < m
        invariant
            m == t.slots@.len(),
            i <= m,
            forall|x: int|
                0 <= x < i ==> match #[trigger] t.slots@[x] {
                    Some((o, _)) => crate::interrupts::owner_slot(o, m as int) == x,
                    None => true,
                },
        decreases m - i,
    {
        let bad = match &t.slots[i] {
            Some((o, _)) => {
                ((o.task as u64 + o.notification as u64) % m as u64) as usize != i
            },
            None => false,
        };
        if bad {
            return false;
        }
        i = i + 1;
    }
    true
}

/// Checks that every routed interrupt names a task inside the table.
fn irq_owners_in_range(t: &IrqOwnerTable, n: usize) -> (ok: bool)
    requires
        t.wf(),
    ensures
        ok == (forall|irq: u32|
            #[trigger] t.spec_get(irq) matches Some(owner) ==> owner.task < n),
{
    let m = t.slots.len();
    let mut i: usize = 0;
    while i < m
        invariant
            t.wf(),
            m == t.slots@.len(),
            i <= m,
            forall|x: int|
                0 <= x < i ==> match #[trigger] t.slots@[x] {
                    Some((_, owner)) => owner.task < n,
                    None => true,
                },
        decreases m - i,
    {
        match t.slots[i] {
            Some((key, owner)) => {
                if owner.task as usize >= n {
                    proof {
                        assert(key.0 as int % m as int == i as int);
                        assert(t.spec_get(key.0) == Some(owner));
                    }
                    return false;
                }
            },
            None => {},
        }
        i = i + 1;
    }
    proof {
        assert forall|irq: u32| #[trigger] t.spec_get(irq) is Some implies t.spec_get(
            irq,
        )->Some_0.task < n by {
            if m > 0 {
                let x = irq as int % m as int;
                assert(0 <= x < m);
                assert(match t.slots@[x] {
                    Some((_, o2)) => o2.task < n,
                    None => true,
                });
            }
        }
    }
    true
}

/// Checks that every line in the reverse routing table can be masked in
/// the 32-bit interrupt-enable register.
fn task_irq_lines_maskable(t: &TaskIrqTable) -> (ok: bool)
    requires
        t.wf(),
    ensures
        ok == (forall|o: crate::abi::InterruptOwner|
            #[trigger] t.spec_get(o) matches Some(irqs)
                ==> forall|j: int| 0 <= j < irqs.len() ==> (#[trigger] irqs[j]).0 < 32),
{
    let m = t.slots.len();
    let mut i: usize = 0;
    while i < m
        invariant
            t.wf(),
            m == t.slots@.len(),
            i <= m,
            forall|x: int|
                0 <= x < i ==> match #[trigger] t.slots@[x] {
                    Some((_, irqs)) => forall|j: int|
                        0 <= j < irqs@.len() ==> (#[trigger] irqs@[j]).0 < 32,
                    None => true,
                },
        decreases m - i,
    {
        let bad = match &t.slots[i] {
            Some((owner, irqs)) => {
                let mut j: usize = 0;
                let mut found = false;
                while j < irqs.len()
                    invariant
                        j <= irqs@.len(),
                        !found ==> forall|y: int|
                            0 <= y < j ==> (#[trigger] irqs@[y]).0 < 32,
                        found ==> exists|y: int|
                            0 <= y < irqs@.len() && (#[trigger] irqs@[y]).0 >= 32,
                    decreases irqs@.len() - j,
                {
                    if irqs[j].0 >= 32 {
                        found = true;
                    }
                    j = j + 1;
                }
                proof {
                    if found {
                        assert(crate::interrupts::owner_slot(*owner, m as int) == i as int);
                        assert(t.spec_get(*owner) == Some(irqs@));
                        assert(!(forall|o: crate::abi::InterruptOwner|
                            #[trigger] t.spec_get(o) matches Some(ir)
                                ==> forall|j: int|
                                    0 <= j < ir.len() ==> (#[trigger] ir[j]).0 < 32)) by {
                            let y = choose|y: int|
                                0 <= y < irqs@.len() && (#[trigger] irqs@[y]).0 >= 32;
                            assert(t.spec_get(*owner) == Some(irqs@));
                            assert(irqs@[y].0 >= 32);
                            assert((t.spec_get(*owner)->Some_0)[y] == irqs@[y]);
                        }
                    }
                }
                found
            },
            None => false,
        };
        if bad {
            return false;
        }
        i = i + 1;
    }
    proof {
        assert forall|o: crate::abi::InterruptOwner| #[trigger] t.spec_get(o) is Some implies
            (forall|j: int|
                0 <= j < t.spec_get(o)->Some_0.len()
                    ==> (#[trigger] t.spec_get(o)->Some_0[j]).0 < 32) by {
            if m > 0 {
                let x = crate::interrupts::owner_slot(o, m as int);
                assert(0 <= x < m);
                assert(match t.slots@[x] {
                    Some((_, irqs)) => forall|j: int|
                        0 <= j < irqs@.len() ==> (#[trigger] irqs@[j]).0 < 32,
                    None => true,
                });
            }
        }
    }
    true
}

} // verus!
