//! The IPC core: synchronous rendezvous between sender and receiver with
//! direct copy between their buffers, lease-based borrows, and the rest of
//! the syscall set.
//!
//! Syscall arguments live in the caller's saved registers; results go back
//! into them. Every untrusted buffer is checked against its owner's region
//! table before the kernel touches it, and a task that hands the kernel a
//! bad buffer is faulted while its counterparty is left in its
//! pre-rendezvous state.

use vstd::prelude::*;
use crate::abi::{FaultInfo, FaultSource, TaskId, ULease, UsageError, FIRST_DEAD_CODE, REGION_READ, REGION_WRITE};
use crate::kernel::{task_wf, Kernel};
use crate::saved_state::SavedState;
use crate::task::{
    NextTask,
    spec_faulted_state, spec_force_fault_tasks, spec_post, force_fault, SchedState, Task,
    TaskState, FAULT_NOTIFICATION,
};
use crate::umem::{can_access, spec_can_access, USlice, UserRam};

verus! {

/// The send target encoded in the caller's registers: the high half of
/// register `a0`.
pub open spec fn spec_send_target(save: SavedState) -> TaskId {
    TaskId((save.a0 >> 16) as u16)
}

/// The operation code of a send: the low half of register `a0`.
pub open spec fn spec_send_operation(save: SavedState) -> u16 {
    save.a0 as u16
}

/// A sender's outgoing buffer: registers `a1` and `a2`.
pub open spec fn spec_send_out(save: SavedState) -> USlice {
    USlice { base: save.a1, len: save.a2 }
}

/// A sender's reply buffer: registers `a3` and `a4`.
pub open spec fn spec_send_incoming(save: SavedState) -> USlice {
    USlice { base: save.a3, len: save.a4 }
}

/// The base address of a sender's lease array: register `a5`.
pub open spec fn spec_send_lease_base(save: SavedState) -> u32 {
    save.a5
}

/// The number of leases a sender offers: register `a6`.
pub open spec fn spec_send_lease_count(save: SavedState) -> u32 {
    save.a6
}

/// A receiver's message buffer: registers `a0` and `a1`.
pub open spec fn spec_recv_buf(save: SavedState) -> USlice {
    USlice { base: save.a0, len: save.a1 }
}

/// The notification mask a receiver opens itself to: register `a2`.
pub open spec fn spec_recv_mask(save: SavedState) -> u32 {
    save.a2
}

/// The closed-receive filter: register `a3`, with the top bit marking that
/// a specific sender is named in the low half.
pub open spec fn spec_recv_filter(save: SavedState) -> Option<TaskId> {
    if save.a3 & 0x8000_0000 != 0 {
        Some(TaskId(save.a3 as u16))
    } else {
        None
    }
}

/// The smaller of two lengths.
pub open spec fn spec_min_u32(a: u32, b: u32) -> u32 {
    if a <= b {
        a
    } else {
        b
    }
}

/// A register file carrying a two-word syscall response.
pub open spec fn with_response(save: SavedState, rc: u32, len: u32) -> SavedState {
    SavedState { a0: rc, a1: len, ..save }
}

/// The register file a receiver resumes with after a message arrives.
pub open spec fn recv_return(
    save: SavedState,
    sender: TaskId,
    op: u16,
    n: u32,
    rcap: u32,
    leases: u32,
) -> SavedState {
    SavedState {
        a0: 0,
        a1: sender.0 as u32,
        a2: op as u32,
        a3: n,
        a4: rcap,
        a5: leases,
        ..save
    }
}

/// Whether `receiver` is blocked in a receive that accepts a message from
/// `sender_id`: an open receive, or a closed receive naming exactly that
/// sender.
pub open spec fn recv_accepts(receiver: Task, sender_id: TaskId) -> bool {
    match receiver.state {
        TaskState::Healthy(SchedState::InRecv(filter)) => match filter {
            None => true,
            Some(f) => f == sender_id,
        },
        _ => false,
    }
}

/// The task table after a message moves from `src` to `dst`: the sender
/// waits for the reply, the receiver resumes with the message header in
/// its result registers.
pub open spec fn spec_deliver_tasks(tasks: Seq<Task>, src: int, dst: int) -> Seq<Task> {
    let s = tasks[src];
    let d = tasks[dst];
    let n = spec_min_u32(spec_send_out(s.save).len, spec_recv_buf(d.save).len);
    tasks.update(
        src,
        Task { state: TaskState::Healthy(SchedState::InReplyTo(d.spec_current_id())), ..s },
    ).update(
        dst,
        Task {
            state: TaskState::Healthy(SchedState::Runnable),
            save: recv_return(
                d.save,
                s.spec_current_id(),
                spec_send_operation(s.save),
                n,
                spec_send_incoming(s.save).len,
                spec_send_lease_count(s.save),
            ),
            ..d
        },
    )
}

/// How RAM changes when `min(out.len, buf.len)` bytes move from `out` to
/// `buf`: the head of the receive buffer holds the sender's bytes and
/// nothing else moved.
pub open spec fn deliver_ram(r0: UserRam, r1: UserRam, out: USlice, buf: USlice) -> bool {
    let n = spec_min_u32(out.len, buf.len);
    &&& r1.base == r0.base
    &&& r1.mem().len() == r0.mem().len()
    &&& forall|j: int|
        0 <= j < n ==> #[trigger] r1.mem()[r0.off(buf.base + j)]
            == r0.mem()[r0.off(out.base + j)]
    &&& forall|j: int|
        0 <= j < r0.mem().len() && !(r0.off(buf.base as int) <= j < r0.off(buf.base as int) + n)
            ==> r1.mem()[j] == r0.mem()[j]
}

/// Forcing a fault preserves well-formedness of every task, and touches no
/// descriptor, region table, stack pointer, or generation.
pub proof fn lemma_force_fault_wf(
    tasks: Seq<Task>,
    index: int,
    fault: FaultInfo,
    len: int,
    ram: UserRam,
)
    requires
        len == tasks.len(),
        0 < len,
        0 <= index < len,
        forall|i: int| 0 <= i < len ==> task_wf(#[trigger] tasks[i], i, len, ram),
    ensures
        spec_force_fault_tasks(tasks, index, fault).len() == len,
        forall|i: int|
            0 <= i < len
                ==> task_wf(
                    #[trigger] spec_force_fault_tasks(tasks, index, fault)[i],
                    i,
                    len,
                    ram,
                ),
        forall|i: int|
            0 <= i < len
                ==> (#[trigger] spec_force_fault_tasks(tasks, index, fault)[i]).descriptor
                    == tasks[i].descriptor,
{
    let faulted = Task { state: spec_faulted_state(tasks[index].state, fault), ..tasks[index] };
    let mid = tasks.update(index, faulted);
    assert(task_wf(faulted, index, len, ram));
    crate::kernel::lemma_post_wf(mid[0], FAULT_NOTIFICATION, 0, len, ram);
}

/// What a message transfer attempt came to.
#[derive(Copy, Clone, Debug, PartialEq, Eq, Structural)]
pub enum TransferOutcome {
    /// The message moved; the sender now waits for a reply and the
    /// receiver is runnable.
    Done,
    /// The sender's outgoing buffer failed its region check; the sender
    /// was faulted and the receiver is untouched.
    SrcFault,
    /// The receiver's buffer failed its region check; the receiver was
    /// faulted and the sender is untouched.
    DstFault,
}

/// Moves a pending message from `src` to `dst`, the rendezvous itself:
/// both buffers are checked against their owners' region tables, the
/// smaller length wins, the bytes are copied directly, and the receiver's
/// result registers are filled with the message header. Whoever presented
/// a bad buffer is faulted; the other side keeps its state.
pub fn transfer_message(k: &mut Kernel, src: usize, dst: usize) -> (o: TransferOutcome)
    requires
        old(k).wf(),
        src < old(k).tasks@.len(),
        dst < old(k).tasks@.len(),
        src != dst,
    ensures
        final(k).wf(),
        final(k).tasks@.len() == old(k).tasks@.len(),
        final(k).machine == old(k).machine,
        final(k).current == old(k).current,
        final(k).stamp == old(k).stamp,
        final(k).irq_map == old(k).irq_map,
        final(k).task_irq_map == old(k).task_irq_map,
        final(k).panic_message == old(k).panic_message,
        final(k).profiling == old(k).profiling,
        ({
            let tasks = old(k).tasks@;
            let out = spec_send_out(tasks[src as int].save);
            let buf = spec_recv_buf(tasks[dst as int].save);
            let src_ok = spec_can_access(tasks[src as int].region_table@, out, REGION_READ);
            let dst_ok = spec_can_access(tasks[dst as int].region_table@, buf, REGION_WRITE);
            match o {
                TransferOutcome::SrcFault => {
                    &&& !src_ok
                    &&& final(k).tasks@ == spec_force_fault_tasks(
                        tasks,
                        src as int,
                        FaultInfo::MemoryAccess {
                            address: Some(out.base),
                            source: FaultSource::User,
                        },
                    )
                    &&& final(k).ram == old(k).ram
                },
                TransferOutcome::DstFault => {
                    &&& src_ok
                    &&& !dst_ok
                    &&& final(k).tasks@ == spec_force_fault_tasks(
                        tasks,
                        dst as int,
                        FaultInfo::MemoryAccess {
                            address: Some(buf.base),
                            source: FaultSource::User,
                        },
                    )
                    &&& final(k).ram == old(k).ram
                },
                TransferOutcome::Done => {
                    &&& src_ok
                    &&& dst_ok
                    &&& final(k).tasks@ == spec_deliver_tasks(tasks, src as int, dst as int)
                    &&& deliver_ram(old(k).ram, final(k).ram, out, buf)
                },
            }
        }),
{
    let ghost len = old(k).tasks@.len() as int;
    let out = USlice { base: k.tasks[src].save.a1, len: k.tasks[src].save.a2 };
    let buf = USlice { base: k.tasks[dst].save.a0, len: k.tasks[dst].save.a1 };

    let src_ok = can_access(&k.tasks[src].region_table, out, REGION_READ);
    if !src_ok {
        force_fault(
            &mut k.tasks,
            src,
            FaultInfo::MemoryAccess { address: Some(out.base), source: FaultSource::User },
        );
        proof {
            lemma_force_fault_wf(
                old(k).tasks@,
                src as int,
                FaultInfo::MemoryAccess { address: Some(out.base), source: FaultSource::User },
                len,
                old(k).ram,
            );
        }
        return TransferOutcome::SrcFault;
    }

    let dst_ok = can_access(&k.tasks[dst].region_table, buf, REGION_WRITE);
    if !dst_ok {
        force_fault(
            &mut k.tasks,
            dst,
            FaultInfo::MemoryAccess { address: Some(buf.base), source: FaultSource::User },
        );
        proof {
            lemma_force_fault_wf(
                old(k).tasks@,
                dst as int,
                FaultInfo::MemoryAccess { address: Some(buf.base), source: FaultSource::User },
                len,
                old(k).ram,
            );
        }
        return TransferOutcome::DstFault;
    }

    let n = if out.len <= buf.len {
        out.len
    } else {
        buf.len
    };

    if n > 0 {
        proof {
            lemma_access_in_ram(
                old(k).tasks@[src as int].region_table@,
                out,
                REGION_READ,
                old(k).ram,
            );
            lemma_access_in_ram(
                old(k).tasks@[dst as int].region_table@,
                buf,
                REGION_WRITE,
                old(k).ram,
            );
        }
        proof {
            assert(k.ram == old(k).ram);
            assert(k.ram.spec_contains(out.base as int, n as int));
        }
        let data = k.ram.read_bytes(out.base, n);
        proof {
            assert(data@.len() == n as int);
            assert(k.ram.spec_contains(buf.base as int, n as int));
        }
        k.ram.write_bytes(buf.base, &data);
        proof {
            assert forall|j: int| 0 <= j < n implies #[trigger] k.ram.mem()[old(k).ram.off(
                buf.base + j,
            )] == old(k).ram.mem()[old(k).ram.off(out.base + j)] by {
                assert(k.ram.mem()[old(k).ram.off(buf.base as int) + j] == data@[j]);
                assert(data@[j] == old(k).ram.mem()[old(k).ram.off(out.base as int) + j]);
            }
        }
    }

    let sender_id = k.tasks[src].current_id();
    let dst_id = k.tasks[dst].current_id();
    let op = #[verifier::truncate] (k.tasks[src].save.a0 as u16);
    let rcap = k.tasks[src].save.a4;
    let leases = k.tasks[src].save.a6;
    k.tasks[dst].save.a0 = 0;
    k.tasks[dst].save.a1 = sender_id.0 as u32;
    k.tasks[dst].save.a2 = op as u32;
    k.tasks[dst].save.a3 = n;
    k.tasks[dst].save.a4 = rcap;
    k.tasks[dst].save.a5 = leases;
    k.tasks[dst].state = TaskState::Healthy(SchedState::Runnable);
    k.tasks[src].state = TaskState::Healthy(SchedState::InReplyTo(dst_id));

    proof {
        assert(k.tasks@ =~= spec_deliver_tasks(old(k).tasks@, src as int, dst as int));
        assert forall|i: int| 0 <= i < len implies task_wf(
            #[trigger] k.tasks@[i],
            i,
            len,
            k.ram,
        ) by {
            assert(task_wf(old(k).tasks@[i], i, len, old(k).ram));
            assert(k.ram.base == old(k).ram.base);
            assert(k.ram.mem().len() == old(k).ram.mem().len());
        }
    }
    TransferOutcome::Done
}

/// A sender as it joins a target's send queue: blocked sending to
/// `target`, stamped with its place in the arrival order.
pub open spec fn spec_enqueued_sender(t: Task, target: TaskId, stamp: u64) -> Task {
    Task {
        state: TaskState::Healthy(SchedState::InSendTo(target, false)),
        queue_stamp: stamp,
        ..t
    }
}

/// Whether a send addressed to `target` finds a dead peer: the generation
/// is stale, or the target sits in the faulted state.
pub open spec fn send_dead(target_task: Task, target: TaskId) -> bool {
    target_task.generation != target.spec_generation() || target_task.is_faulted()
}

/// The full transition contract of the send syscall, relating the
/// kernel before the call, the kernel after it, and the scheduling hint.
pub open spec fn spec_sys_send(pre: Kernel, post: Kernel, hint: NextTask) -> bool {
    &&& (post.profiling == pre.profiling)
    &&& (post.wf())
    &&& (post.machine == pre.machine)
    &&& (post.current == pre.current)
    &&& (post.irq_map == pre.irq_map)
    &&& (post.task_irq_map == pre.task_irq_map)
    &&& (post.panic_message == pre.panic_message)
    &&& (post.tasks@.len() == pre.tasks@.len())
    &&& (hint == NextTask::Same ==> post.tasks@[pre.current as int].is_runnable())
    &&& (({
            let caller = pre.current as int;
            let tasks = pre.tasks@;
            let me = tasks[caller];
            let target = spec_send_target(me.save);
            let idx = target.spec_index() as int;
            let out = spec_send_out(me.save);
            if idx >= tasks.len() {
                &&& post.tasks@ == spec_force_fault_tasks(
                    tasks,
                    caller,
                    FaultInfo::SyscallUsage(UsageError::TaskOutOfRange),
                )
                &&& post.ram == pre.ram
                &&& post.stamp == pre.stamp
                &&& hint == NextTask::Other
            } else if idx == caller {
                &&& post.tasks@ == spec_force_fault_tasks(
                    tasks,
                    caller,
                    FaultInfo::SyscallUsage(UsageError::IllegalTask),
                )
                &&& post.ram == pre.ram
                &&& post.stamp == pre.stamp
                &&& hint == NextTask::Other
            } else if send_dead(tasks[idx], target) {
                &&& post.tasks@ == tasks.update(
                    caller,
                    Task {
                        save: with_response(
                            me.save,
                            (FIRST_DEAD_CODE + tasks[idx].generation) as u32,
                            0,
                        ),
                        ..me
                    },
                )
                &&& post.ram == pre.ram
                &&& post.stamp == pre.stamp
                &&& hint == NextTask::Same
            } else if recv_accepts(tasks[idx], me.spec_current_id()) {
                let src_ok = spec_can_access(me.region_table@, out, REGION_READ);
                let buf = spec_recv_buf(tasks[idx].save);
                let dst_ok = spec_can_access(tasks[idx].region_table@, buf, REGION_WRITE);
                if !src_ok {
                    &&& post.tasks@ == spec_force_fault_tasks(
                        tasks,
                        caller,
                        FaultInfo::MemoryAccess {
                            address: Some(out.base),
                            source: FaultSource::User,
                        },
                    )
                    &&& post.ram == pre.ram
                    &&& post.stamp == pre.stamp
                    &&& hint == NextTask::Other
                } else if !dst_ok {
                    let forced = spec_force_fault_tasks(
                        tasks,
                        idx,
                        FaultInfo::MemoryAccess {
                            address: Some(buf.base),
                            source: FaultSource::User,
                        },
                    );
                    &&& post.tasks@ == forced.update(
                        caller,
                        spec_enqueued_sender(forced[caller], target, pre.stamp),
                    )
                    &&& post.ram == pre.ram
                    &&& post.stamp == pre.stamp + 1
                    &&& hint == NextTask::Other
                } else {
                    &&& post.tasks@ == spec_deliver_tasks(tasks, caller, idx)
                    &&& deliver_ram(pre.ram, post.ram, out, buf)
                    &&& post.stamp == pre.stamp
                    &&& hint == (if tasks[idx].priority() < me.priority() {
                        NextTask::Specific(target.spec_index() as usize)
                    } else {
                        NextTask::Other
                    })
                }
            } else {
                &&& post.tasks@ == tasks.update(
                    caller,
                    spec_enqueued_sender(me, target, pre.stamp),
                )
                &&& post.ram == pre.ram
                &&& post.stamp == pre.stamp + 1
                &&& hint == NextTask::Other
            }
        }))
}

/// The send syscall. The caller's registers name a target and operation,
/// an outgoing buffer, a reply buffer, and a lease array. A stale
/// generation or faulted target returns the dead-peer code at once; a
/// target blocked in a matching receive gets the message and wakes; any
/// other target leaves the caller blocked in the target's send queue. A
/// caller whose outgoing buffer fails its region check is faulted; a
/// receiver whose buffer fails is faulted while the caller queues.
pub fn sys_send(k: &mut Kernel) -> (hint: NextTask)
    requires
        old(k).wf(),
        old(k).tasks@[old(k).current as int].is_runnable(),
        old(k).stamp < u64::MAX,
    ensures
        spec_sys_send(*old(k), *final(k), hint),
{
    let ghost len = old(k).tasks@.len() as int;
    let caller = k.current;
    let target = TaskId((k.tasks[caller].save.a0 >> 16) as u16);
    let idx = target.index() as usize;

    if idx >= k.tasks.len() {
        force_fault(
            &mut k.tasks,
            caller,
            FaultInfo::SyscallUsage(UsageError::TaskOutOfRange),
        );
        proof {
            lemma_force_fault_wf(
                old(k).tasks@,
                caller as int,
                FaultInfo::SyscallUsage(UsageError::TaskOutOfRange),
                len,
                old(k).ram,
            );
        }
        return NextTask::Other;
    }
    if idx == caller {
        force_fault(&mut k.tasks, caller, FaultInfo::SyscallUsage(UsageError::IllegalTask));
        proof {
            lemma_force_fault_wf(
                old(k).tasks@,
                caller as int,
                FaultInfo::SyscallUsage(UsageError::IllegalTask),
                len,
                old(k).ram,
            );
        }
        return NextTask::Other;
    }

    let target_gen = target.generation();
    let target_faulted = match k.tasks[idx].state {
        TaskState::Faulted { .. } => true,
        _ => false,
    };
    if k.tasks[idx].generation != target_gen || target_faulted {
        let rc = crate::abi::dead_response_code(k.tasks[idx].generation);
        k.tasks[caller].save.a0 = rc;
        k.tasks[caller].save.a1 = 0;
        proof {
            let me = old(k).tasks@[caller as int];
            assert(k.tasks@ =~= old(k).tasks@.update(
                caller as int,
                Task {
                    save: with_response(
                        me.save,
                        (FIRST_DEAD_CODE + old(k).tasks@[idx as int].generation) as u32,
                        0,
                    ),
                    ..me
                },
            ));
        }
        return NextTask::Same;
    }

    let me_id = k.tasks[caller].current_id();
    let accepts = match k.tasks[idx].state {
        TaskState::Healthy(SchedState::InRecv(filter)) => match filter {
            None => true,
            Some(f) => f == me_id,
        },
        _ => false,
    };

    if accepts {
        match transfer_message(k, caller, idx) {
            TransferOutcome::Done => {
                if k.tasks[idx].descriptor.priority < k.tasks[caller].descriptor.priority {
                    NextTask::Specific(idx)
                } else {
                    NextTask::Other
                }
            },
            TransferOutcome::SrcFault => NextTask::Other,
            TransferOutcome::DstFault => {
                let ghost forced = k.tasks@;
                k.tasks[caller].state = TaskState::Healthy(SchedState::InSendTo(target, false));
                k.tasks[caller].queue_stamp = k.stamp;
                k.stamp = k.stamp + 1;
                proof {
                    assert(k.tasks@ =~= forced.update(
                        caller as int,
                        spec_enqueued_sender(forced[caller as int], target, old(k).stamp),
                    ));
                }
                NextTask::Other
            },
        }
    } else {
        k.tasks[caller].state = TaskState::Healthy(SchedState::InSendTo(target, false));
        k.tasks[caller].queue_stamp = k.stamp;
        k.stamp = k.stamp + 1;
        proof {
            let me = old(k).tasks@[caller as int];
            assert(k.tasks@ =~= old(k).tasks@.update(
                caller as int,
                spec_enqueued_sender(me, target, old(k).stamp),
            ));
        }
        NextTask::Other
    }
}

/// A slice that passes a region check for reading or writing lies inside
/// the RAM window, because every readable or writable region does.
pub proof fn lemma_access_in_ram(
    regions: Seq<crate::abi::RegionDesc>,
    s: USlice,
    atts: u32,
    ram: UserRam,
)
    requires
        spec_can_access(regions, s, atts),
        s.len > 0,
        atts == REGION_READ || atts == REGION_WRITE,
        forall|j: int|
            0 <= j < regions.len()
                && (#[trigger] regions[j]).attributes & (REGION_READ | REGION_WRITE) != 0
                ==> ram.spec_contains(regions[j].base as int, regions[j].size as int),
    ensures
        forall|m: int| 0 < m <= s.len ==> ram.spec_contains(s.base as int, m),
{
    let j = choose|j: int|
        0 <= j < regions.len() && crate::umem::region_covers(#[trigger] regions[j], s, atts);
    let r = regions[j];
    let a = r.attributes;
    assert(a & atts == atts && (atts == 1 || atts == 2) ==> a & (1u32 | 2u32) != 0)
        by (bit_vector);
    assert(ram.spec_contains(r.base as int, r.size as int));
}

/// Whether `t` is a sender blocked in `me`'s send queue: healthy, in a
/// send addressed to exactly `me`'s current identifier.
pub open spec fn is_queued(t: Task, me: TaskId) -> bool {
    t.state matches TaskState::Healthy(SchedState::InSendTo(p, _)) && p == me
}

/// Whether sender `a` leaves the queue before sender `b`: the smaller
/// priority value wins, and among equals the earlier arrival stamp.
pub open spec fn sender_beats(a: Task, b: Task) -> bool {
    ||| a.priority() < b.priority()
    ||| (a.priority() == b.priority() && a.queue_stamp < b.queue_stamp)
}

/// Whether `n` is the sender an open receive must take: queued, beaten by
/// no queued sender, and of lowest index among exact ties.
pub open spec fn is_best_sender(tasks: Seq<Task>, me: TaskId, n: int) -> bool {
    &&& 0 <= n < tasks.len()
    &&& is_queued(tasks[n], me)
    &&& forall|j: int|
        0 <= j < tasks.len() && is_queued(#[trigger] tasks[j], me)
            ==> !sender_beats(tasks[j], tasks[n])
    &&& forall|j: int|
        0 <= j < n && is_queued(#[trigger] tasks[j], me)
            ==> !(tasks[j].priority() == tasks[n].priority() && tasks[j].queue_stamp
                == tasks[n].queue_stamp)
}

/// The number of senders blocked in `me`'s send queue.
pub open spec fn count_queued(tasks: Seq<Task>, me: TaskId) -> nat
    decreases tasks.len(),
{
    if tasks.len() == 0 {
        0
    } else {
        count_queued(tasks.drop_last(), me) + (if is_queued(tasks.last(), me) {
            1nat
        } else {
            0nat
        })
    }
}

/// Replacing one task changes the queue count by exactly the difference
/// in its queued status.
pub proof fn lemma_count_queued_update(tasks: Seq<Task>, me: TaskId, i: int, t2: Task)
    requires
        0 <= i < tasks.len(),
    ensures
        count_queued(tasks.update(i, t2), me) == count_queued(tasks, me) - (if is_queued(
            tasks[i],
            me,
        ) {
            1int
        } else {
            0int
        }) + (if is_queued(t2, me) {
            1int
        } else {
            0int
        }),
    decreases tasks.len(),
{
    if i == tasks.len() - 1 {
        assert(tasks.update(i, t2).drop_last() =~= tasks.drop_last());
    } else {
        lemma_count_queued_update(tasks.drop_last(), me, i, t2);
        assert(tasks.update(i, t2).drop_last() =~= tasks.drop_last().update(i, t2));
        assert(tasks.update(i, t2).last() == tasks.last());
    }
}

/// Posting notification bits never changes whether a task is queued.
pub proof fn lemma_post_keeps_queued(t: Task, bits: u32, me: TaskId)
    ensures
        is_queued(spec_post(t, bits).0, me) == is_queued(t, me),
{
}

/// Finds the sender an open receive by `me` must take: the queued sender
/// with the smallest priority value, earliest stamp among equals, lowest
/// index among exact ties. `None` when the queue is empty.
pub fn find_best_sender(tasks: &Vec<Task>, me: TaskId) -> (r: Option<usize>)
    ensures
        match r {
            Some(n) => is_best_sender(tasks@, me, n as int),
            None => forall|j: int|
                0 <= j < tasks@.len() ==> !is_queued(#[trigger] tasks@[j], me),
        },
{
    let mut best: Option<usize> = None;
    let mut i: usize = 0;
    while i < tasks.len()
        invariant
            i <= tasks@.len(),
            match best {
                Some(b) => {
                    &&& 0 <= (b as int) < i
                    &&& is_queued(tasks@[b as int], me)
                    &&& forall|j: int|
                        0 <= j < i && is_queued(#[trigger] tasks@[j], me)
                            ==> !sender_beats(tasks@[j], tasks@[b as int])
                    &&& forall|j: int|
                        0 <= j < b && is_queued(#[trigger] tasks@[j], me)
                            ==> !(tasks@[j].priority() == tasks@[b as int].priority()
                                && tasks@[j].queue_stamp == tasks@[b as int].queue_stamp)
                },
                None => forall|j: int|
                    0 <= j < i ==> !is_queued(#[trigger] tasks@[j], me),
            },
        decreases tasks@.len() - i,
    {
        let queued = match tasks[i].state {
            TaskState::Healthy(SchedState::InSendTo(p, _)) => p == me,
            _ => false,
        };
        if queued {
            match best {
                Some(b) => {
                    let beats = tasks[i].descriptor.priority < tasks[b].descriptor.priority
                        || (tasks[i].descriptor.priority == tasks[b].descriptor.priority
                            && tasks[i].queue_stamp < tasks[b].queue_stamp);
                    if beats {
                        best = Some(i);
                    }
                },
                None => {
                    best = Some(i);
                },
            }
        }
        i = i + 1;
    }
    best
}

/// A receiver that found nothing to take either blocks, or — when
/// notification bits arrived while the kernel was working on its behalf —
/// resumes at once with a kernel notification message.
pub open spec fn spec_block_or_notify(t: Task, filter: Option<TaskId>) -> Task {
    let firing = t.notifications_posted & t.notifications_enabled;
    if firing != 0 {
        Task {
            notifications_posted: t.notifications_posted & !t.notifications_enabled,
            save: crate::task::notification_message(firing, t.save),
            ..t
        }
    } else {
        Task { state: TaskState::Healthy(SchedState::InRecv(filter)), ..t }
    }
}

/// Two senders cannot both be the one an open receive must take.
pub proof fn lemma_best_sender_unique(tasks: Seq<Task>, me: TaskId, a: int, b: int)
    requires
        is_best_sender(tasks, me, a),
        is_best_sender(tasks, me, b),
    ensures
        a == b,
{
    if a != b {
        assert(!sender_beats(tasks[a], tasks[b]));
        assert(!sender_beats(tasks[b], tasks[a]));
        assert(tasks[a].priority() == tasks[b].priority());
        assert(tasks[a].queue_stamp == tasks[b].queue_stamp);
    }
}

/// Parks the current task in the receive state, unless notification bits
/// arrived meanwhile, in which case it resumes with them. Returns whether
/// it stayed runnable.
fn block_or_notify(k: &mut Kernel, filter: Option<TaskId>) -> (stayed: bool)
    requires
        old(k).wf(),
        old(k).tasks@[old(k).current as int].is_runnable(),
        match filter {
            Some(p) => p.spec_index() < old(k).tasks@.len(),
            None => true,
        },
    ensures
        final(k).wf(),
        *final(k) == (Kernel {
            tasks: final(k).tasks,
            ..*old(k)
        }),
        final(k).tasks@ == old(k).tasks@.update(
            old(k).current as int,
            spec_block_or_notify(old(k).tasks@[old(k).current as int], filter),
        ),
        stayed == (old(k).tasks@[old(k).current as int].notifications_posted
            & old(k).tasks@[old(k).current as int].notifications_enabled != 0),
        stayed == final(k).tasks@[old(k).current as int].is_runnable(),
{
    let caller = k.current;
    let firing = k.tasks[caller].notifications_posted & k.tasks[caller].notifications_enabled;
    if firing != 0 {
        let cleared = k.tasks[caller].notifications_posted
            & !k.tasks[caller].notifications_enabled;
        k.tasks[caller].notifications_posted = cleared;
        k.tasks[caller].save.a0 = 0;
        k.tasks[caller].save.a1 = crate::abi::KERNEL_TASK_ID as u32;
        k.tasks[caller].save.a2 = firing;
        k.tasks[caller].save.a3 = 0;
        k.tasks[caller].save.a4 = 0;
        k.tasks[caller].save.a5 = 0;
        proof {
            assert(k.tasks@ =~= old(k).tasks@.update(
                caller as int,
                spec_block_or_notify(old(k).tasks@[caller as int], filter),
            ));
        }
        true
    } else {
        k.tasks[caller].state = TaskState::Healthy(SchedState::InRecv(filter));
        proof {
            assert(k.tasks@ =~= old(k).tasks@.update(
                caller as int,
                spec_block_or_notify(old(k).tasks@[caller as int], filter),
            ));
        }
        false
    }
}

/// The full transition contract of the recv syscall, relating the
/// kernel before the call, the kernel after it, and the scheduling hint.
pub open spec fn spec_sys_recv(pre: Kernel, post: Kernel, hint: NextTask) -> bool {
    &&& (post.profiling == pre.profiling)
    &&& (post.wf())
    &&& (post.machine == pre.machine)
    &&& (post.current == pre.current)
    &&& (post.stamp == pre.stamp)
    &&& (post.irq_map == pre.irq_map)
    &&& (post.task_irq_map == pre.task_irq_map)
    &&& (post.panic_message == pre.panic_message)
    &&& (post.tasks@.len() == pre.tasks@.len())
    &&& (hint == NextTask::Same ==> post.tasks@[pre.current as int].is_runnable())
    &&& (({
            let caller = pre.current as int;
            let tasks = pre.tasks@;
            let me = tasks[caller];
            let mask = spec_recv_mask(me.save);
            let firing = me.notifications_posted & mask;
            let me1 = Task { notifications_enabled: mask, ..me };
            let tasks1 = tasks.update(caller, me1);
            let buf = spec_recv_buf(me.save);
            let me_id = me.spec_current_id();
            if firing != 0 {
                &&& post.tasks@ == tasks.update(
                    caller,
                    Task {
                        notifications_enabled: mask,
                        notifications_posted: me.notifications_posted & !mask,
                        save: crate::task::notification_message(firing, me.save),
                        ..me
                    },
                )
                &&& post.ram == pre.ram
                &&& hint == NextTask::Same
            } else {
                match spec_recv_filter(me.save) {
                    Some(fid) => {
                        let fidx = fid.spec_index() as int;
                        if fidx >= tasks.len() {
                            &&& post.tasks@ == spec_force_fault_tasks(
                                tasks1,
                                caller,
                                FaultInfo::SyscallUsage(UsageError::TaskOutOfRange),
                            )
                            &&& post.ram == pre.ram
                            &&& hint == NextTask::Other
                        } else if tasks[fidx].generation != fid.spec_generation() {
                            &&& post.tasks@ == tasks.update(
                                caller,
                                Task {
                                    notifications_enabled: mask,
                                    save: SavedState {
                                        a0: (FIRST_DEAD_CODE + tasks[fidx].generation) as u32,
                                        ..me.save
                                    },
                                    ..me
                                },
                            )
                            &&& post.ram == pre.ram
                            &&& hint == NextTask::Same
                        } else if is_queued(tasks[fidx], me_id) {
                            let out = spec_send_out(tasks[fidx].save);
                            let src_ok = spec_can_access(
                                tasks[fidx].region_table@,
                                out,
                                REGION_READ,
                            );
                            let dst_ok = spec_can_access(me.region_table@, buf, REGION_WRITE);
                            if src_ok && dst_ok {
                                &&& post.tasks@ == spec_deliver_tasks(tasks1, fidx, caller)
                                &&& deliver_ram(pre.ram, post.ram, out, buf)
                                &&& hint == NextTask::Same
                            } else if !src_ok {
                                let forced = spec_force_fault_tasks(
                                    tasks1,
                                    fidx,
                                    FaultInfo::MemoryAccess {
                                        address: Some(out.base),
                                        source: FaultSource::User,
                                    },
                                );
                                &&& post.tasks@ == forced.update(
                                    caller,
                                    spec_block_or_notify(forced[caller], Some(fid)),
                                )
                                &&& post.ram == pre.ram
                                &&& hint == (if forced[caller].notifications_posted & mask
                                    != 0 {
                                    NextTask::Same
                                } else {
                                    NextTask::Other
                                })
                            } else {
                                &&& post.tasks@ == spec_force_fault_tasks(
                                    tasks1,
                                    caller,
                                    FaultInfo::MemoryAccess {
                                        address: Some(buf.base),
                                        source: FaultSource::User,
                                    },
                                )
                                &&& post.ram == pre.ram
                                &&& hint == NextTask::Other
                            }
                        } else {
                            &&& post.tasks@ == tasks1.update(
                                caller,
                                Task {
                                    state: TaskState::Healthy(SchedState::InRecv(Some(fid))),
                                    ..me1
                                },
                            )
                            &&& post.ram == pre.ram
                            &&& hint == NextTask::Other
                        }
                    },
                    None => {
                        &&& post.ram.base == pre.ram.base
                        &&& post.ram.mem().len() == pre.ram.mem().len()
                        &&& forall|j: int|
                            0 <= j < pre.ram.mem().len()
                                && !(pre.ram.off(buf.base as int) <= j < pre.ram.off(
                                    buf.base as int,
                                ) + buf.len) ==> post.ram.mem()[j] == pre.ram.mem()[j]
                        &&& forall|i: int|
                            0 <= i < tasks.len() && i != caller && i != 0
                                ==> (post.tasks@[i] == tasks[i] || (is_queued(
                                    #[trigger] tasks[i],
                                    me_id,
                                ) && !spec_can_access(
                                    tasks[i].region_table@,
                                    spec_send_out(tasks[i].save),
                                    REGION_READ,
                                ) && post.tasks@[i] == (Task {
                                    state: spec_faulted_state(
                                        tasks[i].state,
                                        FaultInfo::MemoryAccess {
                                            address: Some(spec_send_out(tasks[i].save).base),
                                            source: FaultSource::User,
                                        },
                                    ),
                                    ..tasks[i]
                                })) || (is_queued(tasks[i], me_id) && post.tasks@[i]
                                    == (Task {
                                    state: TaskState::Healthy(SchedState::InReplyTo(me_id)),
                                    ..tasks[i]
                                })))
                        &&& (caller != 0 ==> post.tasks@[0].descriptor
                            == tasks[0].descriptor && post.tasks@[0].generation
                            == tasks[0].generation && post.tasks@[0].region_table@
                            == tasks[0].region_table@ && post.tasks@[0].save.sp
                            == tasks[0].save.sp && post.tasks@[0].timer == tasks[0].timer
                            && post.tasks@[0].queue_stamp == tasks[0].queue_stamp)
                        &&& post.tasks@[caller].notifications_enabled == mask
                        &&& ((forall|j: int|
                            0 <= j < tasks.len() ==> !is_queued(#[trigger] tasks[j], me_id))
                            ==> post.tasks@ == tasks1.update(
                            caller,
                            Task {
                                state: TaskState::Healthy(SchedState::InRecv(None)),
                                ..me1
                            },
                        ) && post.ram == pre.ram && hint == NextTask::Other)
                        &&& forall|b: int|
                            is_best_sender(tasks, me_id, b) ==> ({
                                let out = spec_send_out(tasks[b].save);
                                let src_ok = spec_can_access(
                                    tasks[b].region_table@,
                                    out,
                                    REGION_READ,
                                );
                                let dst_ok = spec_can_access(
                                    me.region_table@,
                                    buf,
                                    REGION_WRITE,
                                );
                                &&& (src_ok && dst_ok ==> post.tasks@
                                    == spec_deliver_tasks(tasks1, b, caller) && deliver_ram(
                                    pre.ram,
                                    post.ram,
                                    out,
                                    buf,
                                ) && hint == NextTask::Same)
                                &&& (src_ok && !dst_ok ==> post.tasks@
                                    == spec_force_fault_tasks(
                                    tasks1,
                                    caller,
                                    FaultInfo::MemoryAccess {
                                        address: Some(buf.base),
                                        source: FaultSource::User,
                                    },
                                ) && post.ram == pre.ram && hint == NextTask::Other)
                            })
                    },
                }
            }
        }))
}

/// The receive syscall. The caller first narrows its notification mask;
/// pending bits that overlap it are delivered at once as a kernel
/// message. A closed receive then takes a message only from the named
/// sender, returning the dead-peer code if that sender's generation is
/// stale; an open receive takes the best queued sender, smallest priority
/// value first and earliest arrival among equals. With nothing to take the
/// caller blocks. A queued sender whose outgoing buffer fails its region
/// check is faulted and skipped; a caller whose own buffer fails is
/// faulted.
pub fn sys_recv(k: &mut Kernel) -> (hint: NextTask)
    requires
        old(k).wf(),
        old(k).tasks@[old(k).current as int].is_runnable(),
    ensures
        spec_sys_recv(*old(k), *final(k), hint),
{
    let ghost len = old(k).tasks@.len() as int;
    let ghost tasks0 = old(k).tasks@;
    let caller = k.current;
    let mask = k.tasks[caller].save.a2;
    k.tasks[caller].notifications_enabled = mask;
    let ghost tasks1 = k.tasks@;
    proof {
        assert(tasks1 =~= tasks0.update(
            caller as int,
            Task { notifications_enabled: mask, ..tasks0[caller as int] },
        ));
    }

    let firing = k.tasks[caller].notifications_posted & mask;
    if firing != 0 {
        let cleared = k.tasks[caller].notifications_posted & !mask;
        k.tasks[caller].notifications_posted = cleared;
        k.tasks[caller].save.a0 = 0;
        k.tasks[caller].save.a1 = crate::abi::KERNEL_TASK_ID as u32;
        k.tasks[caller].save.a2 = firing;
        k.tasks[caller].save.a3 = 0;
        k.tasks[caller].save.a4 = 0;
        k.tasks[caller].save.a5 = 0;
        proof {
            let me = tasks0[caller as int];
            assert(k.tasks@ =~= tasks0.update(
                caller as int,
                Task {
                    notifications_enabled: mask,
                    notifications_posted: me.notifications_posted & !mask,
                    save: crate::task::notification_message(firing, me.save),
                    ..me
                },
            ));
        }
        return NextTask::Same;
    }

    let me_id = k.tasks[caller].current_id();
    let a3 = k.tasks[caller].save.a3;
    if a3 & 0x8000_0000 != 0 {
        let fid = TaskId(#[verifier::truncate] (a3 as u16));
        let fidx = fid.index() as usize;
        if fidx >= k.tasks.len() {
            force_fault(
                &mut k.tasks,
                caller,
                FaultInfo::SyscallUsage(UsageError::TaskOutOfRange),
            );
            proof {
                lemma_force_fault_wf(
                    tasks1,
                    caller as int,
                    FaultInfo::SyscallUsage(UsageError::TaskOutOfRange),
                    len,
                    old(k).ram,
                );
            }
            return NextTask::Other;
        }
        if k.tasks[fidx].generation != fid.generation() {
            let rc = crate::abi::dead_response_code(k.tasks[fidx].generation);
            k.tasks[caller].save.a0 = rc;
            proof {
                let me = tasks0[caller as int];
                assert(k.tasks@ =~= tasks0.update(
                    caller as int,
                    Task {
                        notifications_enabled: mask,
                        save: SavedState {
                            a0: (FIRST_DEAD_CODE + tasks0[fidx as int].generation) as u32,
                            ..me.save
                        },
                        ..me
                    },
                ));
            }
            return NextTask::Same;
        }
        let queued = match k.tasks[fidx].state {
            TaskState::Healthy(SchedState::InSendTo(p, _)) => p == me_id,
            _ => false,
        };
        if queued {
            match transfer_message(k, fidx, caller) {
                TransferOutcome::Done => {
                    return NextTask::Same;
                },
                TransferOutcome::SrcFault => {
                    let stayed = block_or_notify(k, Some(fid));
                    if stayed {
                        return NextTask::Same;
                    } else {
                        return NextTask::Other;
                    }
                },
                TransferOutcome::DstFault => {
                    return NextTask::Other;
                },
            }
        } else {
            k.tasks[caller].state = TaskState::Healthy(SchedState::InRecv(Some(fid)));
            proof {
                let me1 = Task { notifications_enabled: mask, ..tasks0[caller as int] };
                assert(k.tasks@ =~= tasks1.update(
                    caller as int,
                    Task {
                        state: TaskState::Healthy(SchedState::InRecv(Some(fid))),
                        ..me1
                    },
                ));
            }
            return NextTask::Other;
        }
    }

    let ghost mut first = true;
    loop
        invariant
            k.wf(),
            tasks0 == old(k).tasks@,
            k.tasks@.len() == len,
            len == tasks0.len(),
            0 <= caller < len,
            caller == old(k).current,
            k.machine == old(k).machine,
            k.current == old(k).current,
            k.stamp == old(k).stamp,
            k.irq_map == old(k).irq_map,
            k.task_irq_map == old(k).task_irq_map,
            k.panic_message == old(k).panic_message,
            k.profiling == old(k).profiling,
            k.ram == old(k).ram,
            mask == spec_recv_mask(tasks0[caller as int].save),
            tasks0[caller as int].is_runnable(),
            tasks0[caller as int].notifications_posted & mask == 0,
            me_id == tasks0[caller as int].spec_current_id(),
            spec_recv_filter(tasks0[caller as int].save) is None,
            tasks1 == tasks0.update(
                caller as int,
                Task { notifications_enabled: mask, ..tasks0[caller as int] },
            ),
            k.tasks@[caller as int] == (Task {
                notifications_posted: k.tasks@[caller as int].notifications_posted,
                ..tasks1[caller as int]
            }),
            k.tasks@[caller as int].is_runnable(),
            forall|i: int|
                0 <= i < len && i != caller && i != 0
                    ==> (k.tasks@[i] == tasks0[i] || (is_queued(#[trigger] tasks0[i], me_id)
                        && !spec_can_access(
                        tasks0[i].region_table@,
                        spec_send_out(tasks0[i].save),
                        REGION_READ,
                    ) && k.tasks@[i] == (Task {
                        state: spec_faulted_state(
                            tasks0[i].state,
                            FaultInfo::MemoryAccess {
                                address: Some(spec_send_out(tasks0[i].save).base),
                                source: FaultSource::User,
                            },
                        ),
                        ..tasks0[i]
                    }))),
            caller != 0 ==> k.tasks@[0].descriptor == tasks0[0].descriptor
                && k.tasks@[0].generation == tasks0[0].generation && k.tasks@[0].region_table@
                == tasks0[0].region_table@ && k.tasks@[0].save.sp == tasks0[0].save.sp
                && k.tasks@[0].timer == tasks0[0].timer && k.tasks@[0].queue_stamp
                == tasks0[0].queue_stamp,
            first ==> k.tasks@ == tasks1,
            !first ==> forall|b: int|
                is_best_sender(tasks0, me_id, b) ==> !spec_can_access(
                    (#[trigger] tasks0[b]).region_table@,
                    spec_send_out(tasks0[b].save),
                    REGION_READ,
                ),
            !first ==> exists|j: int|
                0 <= j < len && is_queued(#[trigger] tasks0[j], me_id),
            forall|i: int|
                0 <= i < len && is_queued(#[trigger] k.tasks@[i], me_id) ==> is_queued(
                    tasks0[i],
                    me_id,
                ) && k.tasks@[i].priority() == tasks0[i].priority()
                    && k.tasks@[i].queue_stamp == tasks0[i].queue_stamp
                    && k.tasks@[i].save == tasks0[i].save && k.tasks@[i].region_table@
                    == tasks0[i].region_table@ && k.tasks@[i].state == tasks0[i].state,
        decreases count_queued(k.tasks@, me_id),
    {
        let ghost pre_tasks = k.tasks@;
        match find_best_sender(&k.tasks, me_id) {
            None => {
                let stayed = block_or_notify(k, None);
                proof {
                    if forall|j: int|
                        0 <= j < len ==> !is_queued(#[trigger] tasks0[j], me_id) {
                        assert(first);
                        assert(k.tasks@ =~= tasks1.update(
                            caller as int,
                            Task {
                                state: TaskState::Healthy(SchedState::InRecv(None)),
                                ..tasks1[caller as int]
                            },
                        ));
                    }
                    if first {
                        assert forall|b: int|
                            is_best_sender(tasks0, me_id, b) implies false by {
                            assert(is_queued(tasks0[b], me_id));
                            assert(is_queued(pre_tasks[b], me_id));
                        }
                    }
                }
                if stayed {
                    return NextTask::Same;
                } else {
                    return NextTask::Other;
                }
            },
            Some(b) => {
                proof {
                    assert(is_queued(pre_tasks[b as int], me_id));
                    assert(b as int != caller);
                }
                match transfer_message(k, b, caller) {
                    TransferOutcome::Done => {
                        proof {
                            if first {
                                assert forall|bb: int|
                                    is_best_sender(tasks0, me_id, bb) implies bb
                                    == b as int by {
                                    assert(is_best_sender(tasks1, me_id, bb));
                                    lemma_best_sender_unique(tasks1, me_id, bb, b as int);
                                }
                            }
                        }
                        return NextTask::Same;
                    },
                    TransferOutcome::DstFault => {
                        proof {
                            if first {
                                assert forall|bb: int|
                                    is_best_sender(tasks0, me_id, bb) implies bb
                                    == b as int by {
                                    assert(is_best_sender(tasks1, me_id, bb));
                                    lemma_best_sender_unique(tasks1, me_id, bb, b as int);
                                }
                            }
                            lemma_force_fault_wf(
                                pre_tasks,
                                caller as int,
                                FaultInfo::MemoryAccess {
                                    address: Some(spec_recv_buf(
                                        tasks0[caller as int].save,
                                    ).base),
                                    source: FaultSource::User,
                                },
                                len,
                                old(k).ram,
                            );
                        }
                        return NextTask::Other;
                    },
                    TransferOutcome::SrcFault => {
                        proof {
                            first = false;
                            let fault = FaultInfo::MemoryAccess {
                                address: Some(spec_send_out(pre_tasks[b as int].save).base),
                                source: FaultSource::User,
                            };
                            let faulted = Task {
                                state: spec_faulted_state(pre_tasks[b as int].state, fault),
                                ..pre_tasks[b as int]
                            };
                            let mid = pre_tasks.update(b as int, faulted);
                            lemma_count_queued_update(pre_tasks, me_id, b as int, faulted);
                            lemma_post_keeps_queued(mid[0], FAULT_NOTIFICATION, me_id);
                            lemma_count_queued_update(
                                mid,
                                me_id,
                                0,
                                spec_post(mid[0], FAULT_NOTIFICATION).0,
                            );
                        }
                    },
                }
            },
        }
    }
}

/// The full transition contract of the reply syscall, relating the
/// kernel before the call, the kernel after it, and the scheduling hint.
pub open spec fn spec_sys_reply(pre: Kernel, post: Kernel, hint: NextTask) -> bool {
    &&& (post.profiling == pre.profiling)
    &&& (post.wf())
    &&& (post.machine == pre.machine)
    &&& (post.current == pre.current)
    &&& (post.stamp == pre.stamp)
    &&& (post.irq_map == pre.irq_map)
    &&& (post.task_irq_map == pre.task_irq_map)
    &&& (post.panic_message == pre.panic_message)
    &&& (post.tasks@.len() == pre.tasks@.len())
    &&& (hint == NextTask::Same ==> post.tasks@[pre.current as int].is_runnable())
    &&& (({
            let caller = pre.current as int;
            let tasks = pre.tasks@;
            let me = tasks[caller];
            let peer = TaskId(me.save.a0 as u16);
            let pidx = peer.spec_index() as int;
            let code = me.save.a1;
            let msg = USlice { base: me.save.a2, len: me.save.a3 };
            if pidx >= tasks.len() {
                &&& post.tasks@ == spec_force_fault_tasks(
                    tasks,
                    caller,
                    FaultInfo::SyscallUsage(UsageError::TaskOutOfRange),
                )
                &&& post.ram == pre.ram
                &&& hint == NextTask::Other
            } else if tasks[pidx].generation != peer.spec_generation()
                || tasks[pidx].state != TaskState::Healthy(
                SchedState::InReplyTo(me.spec_current_id()),
            ) {
                &&& post.tasks@ == tasks
                &&& post.ram == pre.ram
                &&& hint == NextTask::Same
            } else {
                let buf = spec_send_incoming(tasks[pidx].save);
                let src_ok = spec_can_access(me.region_table@, msg, REGION_READ);
                let dst_ok = spec_can_access(tasks[pidx].region_table@, buf, REGION_WRITE);
                if !src_ok {
                    &&& post.tasks@ == spec_force_fault_tasks(
                        tasks,
                        caller,
                        FaultInfo::MemoryAccess {
                            address: Some(msg.base),
                            source: FaultSource::User,
                        },
                    )
                    &&& post.ram == pre.ram
                    &&& hint == NextTask::Other
                } else if !dst_ok {
                    &&& post.tasks@ == spec_force_fault_tasks(
                        tasks,
                        pidx,
                        FaultInfo::MemoryAccess {
                            address: Some(buf.base),
                            source: FaultSource::User,
                        },
                    )
                    &&& post.ram == pre.ram
                    &&& hint == NextTask::Other
                } else {
                    let n = spec_min_u32(msg.len, buf.len);
                    &&& post.tasks@ == tasks.update(
                        pidx,
                        Task {
                            state: TaskState::Healthy(SchedState::Runnable),
                            save: with_response(tasks[pidx].save, code, n),
                            ..tasks[pidx]
                        },
                    )
                    &&& deliver_ram(pre.ram, post.ram, msg, buf)
                    &&& hint == (if tasks[pidx].priority() < me.priority() {
                        NextTask::Specific(pidx as nat as usize)
                    } else {
                        NextTask::Same
                    })
                }
            }
        }))
}

/// The reply syscall. The caller names a peer, a response code, and a
/// message. A stale or absent peer, or one not waiting for this caller's
/// reply, is dropped silently: the peer may have been restarted meanwhile.
/// Otherwise the message is copied into the peer's reply buffer, clamped
/// to that buffer's length, the code and length land in the peer's result
/// registers, and the peer wakes.
pub fn sys_reply(k: &mut Kernel) -> (hint: NextTask)
    requires
        old(k).wf(),
        old(k).tasks@[old(k).current as int].is_runnable(),
    ensures
        spec_sys_reply(*old(k), *final(k), hint),
{
    let ghost len = old(k).tasks@.len() as int;
    let caller = k.current;
    let peer = TaskId(#[verifier::truncate] (k.tasks[caller].save.a0 as u16));
    let pidx = peer.index() as usize;

    if pidx >= k.tasks.len() {
        force_fault(&mut k.tasks, caller, FaultInfo::SyscallUsage(UsageError::TaskOutOfRange));
        proof {
            lemma_force_fault_wf(
                old(k).tasks@,
                caller as int,
                FaultInfo::SyscallUsage(UsageError::TaskOutOfRange),
                len,
                old(k).ram,
            );
        }
        return NextTask::Other;
    }

    let me_id = k.tasks[caller].current_id();
    let waiting = k.tasks[pidx].generation == peer.generation() && match k.tasks[pidx].state {
        TaskState::Healthy(SchedState::InReplyTo(p)) => p == me_id,
        _ => false,
    };
    if !waiting {
        proof {
            let tasks = old(k).tasks@;
            let sid = tasks[caller as int].spec_current_id();
            if tasks[pidx as int].generation == peer.spec_generation() {
                assert(tasks[pidx as int].state != TaskState::Healthy(
                    SchedState::InReplyTo(sid),
                ));
            }
        }
        return NextTask::Same;
    }

    let msg = USlice { base: k.tasks[caller].save.a2, len: k.tasks[caller].save.a3 };
    let buf = USlice { base: k.tasks[pidx].save.a3, len: k.tasks[pidx].save.a4 };

    let src_ok = can_access(&k.tasks[caller].region_table, msg, REGION_READ);
    if !src_ok {
        force_fault(
            &mut k.tasks,
            caller,
            FaultInfo::MemoryAccess { address: Some(msg.base), source: FaultSource::User },
        );
        proof {
            lemma_force_fault_wf(
                old(k).tasks@,
                caller as int,
                FaultInfo::MemoryAccess { address: Some(msg.base), source: FaultSource::User },
                len,
                old(k).ram,
            );
        }
        return NextTask::Other;
    }
    let dst_ok = can_access(&k.tasks[pidx].region_table, buf, REGION_WRITE);
    if !dst_ok {
        force_fault(
            &mut k.tasks,
            pidx,
            FaultInfo::MemoryAccess { address: Some(buf.base), source: FaultSource::User },
        );
        proof {
            lemma_force_fault_wf(
                old(k).tasks@,
                pidx as int,
                FaultInfo::MemoryAccess { address: Some(buf.base), source: FaultSource::User },
                len,
                old(k).ram,
            );
        }
        return NextTask::Other;
    }

    let n = if msg.len <= buf.len {
        msg.len
    } else {
        buf.len
    };
    if n > 0 {
        proof {
            lemma_access_in_ram(
                old(k).tasks@[caller as int].region_table@,
                msg,
                REGION_READ,
                old(k).ram,
            );
            lemma_access_in_ram(
                old(k).tasks@[pidx as int].region_table@,
                buf,
                REGION_WRITE,
                old(k).ram,
            );
            assert(k.ram == old(k).ram);
            assert(k.ram.spec_contains(msg.base as int, n as int));
            assert(k.ram.spec_contains(buf.base as int, n as int));
        }
        let data = k.ram.read_bytes(msg.base, n);
        proof {
            assert(data@.len() == n as int);
        }
        k.ram.write_bytes(buf.base, &data);
        proof {
            assert forall|j: int| 0 <= j < n implies #[trigger] k.ram.mem()[old(k).ram.off(
                buf.base + j,
            )] == old(k).ram.mem()[old(k).ram.off(msg.base + j)] by {
                assert(k.ram.mem()[old(k).ram.off(buf.base as int) + j] == data@[j]);
                assert(data@[j] == old(k).ram.mem()[old(k).ram.off(msg.base as int) + j]);
            }
        }
    }

    let code = k.tasks[caller].save.a1;
    k.tasks[pidx].save.a0 = code;
    k.tasks[pidx].save.a1 = n;
    k.tasks[pidx].state = TaskState::Healthy(SchedState::Runnable);

    proof {
        assert(k.tasks@ =~= old(k).tasks@.update(
            pidx as int,
            Task {
                state: TaskState::Healthy(SchedState::Runnable),
                save: with_response(old(k).tasks@[pidx as int].save, code, n),
                ..old(k).tasks@[pidx as int]
            },
        ));
        assert forall|i: int| 0 <= i < len implies task_wf(
            #[trigger] k.tasks@[i],
            i,
            len,
            k.ram,
        ) by {
            assert(task_wf(old(k).tasks@[i], i, len, old(k).ram));
            assert(k.ram.base == old(k).ram.base);
            assert(k.ram.mem().len() == old(k).ram.mem().len());
        }
    }

    if k.tasks[pidx].descriptor.priority < k.tasks[caller].descriptor.priority {
        NextTask::Specific(pidx)
    } else {
        NextTask::Same
    }
}

/// The full transition contract of the set-timer syscall, relating the
/// kernel before the call, the kernel after it, and the scheduling hint.
pub open spec fn spec_sys_set_timer(pre: Kernel, post: Kernel, hint: NextTask) -> bool {
    &&& (post.profiling == pre.profiling)
    &&& (post.wf())
    &&& (post == (Kernel { tasks: post.tasks, ..pre }))
    &&& (({
            let caller = pre.current as int;
            let me = pre.tasks@[caller];
            let enable = me.save.a0;
            let deadline = (me.save.a1 as u64) | ((me.save.a2 as u64) << 32);
            let bits = me.save.a3;
            if enable != 0 && deadline <= pre.machine.ticks {
                post.tasks@ == pre.tasks@.update(
                    caller,
                    Task {
                        timer: crate::task::TaskTimer { deadline: None, to_post: bits },
                        notifications_posted: me.notifications_posted | bits,
                        ..me
                    },
                )
            } else {
                post.tasks@ == pre.tasks@.update(
                    caller,
                    Task {
                        timer: crate::task::TaskTimer {
                            deadline: if enable != 0 {
                                Some(deadline)
                            } else {
                                None
                            },
                            to_post: bits,
                        },
                        ..me
                    },
                )
            }
        }))
    &&& (hint == NextTask::Same)
    &&& (post.tasks@[pre.current as int].is_runnable())
}

/// The set-timer syscall: arms the caller's timer with the supplied
/// deadline and notification bits, or disarms it. A deadline at or before
/// the current tick count would already have fired, so its bits are
/// posted to the caller at once and the timer is left disarmed; a future
/// deadline is stored verbatim, readable back through the get-timer
/// syscall, and fires once the kernel's tick count reaches it.
pub fn sys_set_timer(k: &mut Kernel) -> (hint: NextTask)
    requires
        old(k).wf(),
        old(k).tasks@[old(k).current as int].is_runnable(),
    ensures
        spec_sys_set_timer(*old(k), *final(k), hint),
{
    let caller = k.current;
    let enable = k.tasks[caller].save.a0;
    let lo = k.tasks[caller].save.a1;
    let hi = k.tasks[caller].save.a2;
    let bits = k.tasks[caller].save.a3;
    let deadline: u64 = (lo as u64) | ((hi as u64) << 32);
    if enable != 0 && deadline <= k.machine.ticks {
        let posted = k.tasks[caller].notifications_posted | bits;
        k.tasks[caller].notifications_posted = posted;
        k.tasks[caller].timer = crate::task::TaskTimer { deadline: None, to_post: bits };
        proof {
            let me = old(k).tasks@[caller as int];
            assert(k.tasks@ =~= old(k).tasks@.update(
                caller as int,
                Task {
                    timer: crate::task::TaskTimer { deadline: None, to_post: bits },
                    notifications_posted: me.notifications_posted | bits,
                    ..me
                },
            ));
        }
        return NextTask::Same;
    }
    k.tasks[caller].timer = crate::task::TaskTimer {
        deadline: if enable != 0 {
            Some(deadline)
        } else {
            None
        },
        to_post: bits,
    };
    proof {
        assert(k.tasks@ =~= old(k).tasks@.update(
            caller as int,
            Task {
                timer: crate::task::TaskTimer {
                    deadline: if enable != 0 {
                        Some(deadline)
                    } else {
                        None
                    },
                    to_post: bits,
                },
                ..old(k).tasks@[caller as int]
            },
        ));
    }
    NextTask::Same
}

/// The register file after a get-timer syscall: the current tick count,
/// whether a deadline is armed and its value, and the bits it will post.
pub open spec fn timer_return(save: SavedState, now: u64, timer: crate::task::TaskTimer) -> SavedState {
    SavedState {
        a0: now as u32,
        a1: (now >> 32) as u32,
        a2: if timer.deadline is Some {
            1
        } else {
            0
        },
        a3: match timer.deadline {
            Some(d) => d as u32,
            None => 0,
        },
        a4: match timer.deadline {
            Some(d) => (d >> 32) as u32,
            None => 0,
        },
        a5: timer.to_post,
        ..save
    }
}

/// The full transition contract of the get-timer syscall, relating the
/// kernel before the call, the kernel after it, and the scheduling hint.
pub open spec fn spec_sys_get_timer(pre: Kernel, post: Kernel, hint: NextTask) -> bool {
    &&& (post.profiling == pre.profiling)
    &&& (post.wf())
    &&& (post == (Kernel { tasks: post.tasks, ..pre }))
    &&& (({
            let caller = pre.current as int;
            let me = pre.tasks@[caller];
            post.tasks@ == pre.tasks@.update(
                caller,
                Task {
                    save: timer_return(me.save, pre.machine.ticks, me.timer),
                    ..me
                },
            )
        }))
    &&& (hint == NextTask::Same)
    &&& (post.tasks@[pre.current as int].is_runnable())
}

/// The get-timer syscall: returns the kernel's monotonic tick count and
/// the caller's timer exactly as the set-timer syscall stored it.
pub fn sys_get_timer(k: &mut Kernel) -> (hint: NextTask)
    requires
        old(k).wf(),
        old(k).tasks@[old(k).current as int].is_runnable(),
    ensures
        spec_sys_get_timer(*old(k), *final(k), hint),
{
    let caller = k.current;
    let now = k.machine.ticks;
    let timer = k.tasks[caller].timer;
    k.tasks[caller].save.a0 = #[verifier::truncate] (now as u32);
    k.tasks[caller].save.a1 = #[verifier::truncate] ((now >> 32) as u32);
    match timer.deadline {
        Some(d) => {
            k.tasks[caller].save.a2 = 1;
            k.tasks[caller].save.a3 = #[verifier::truncate] (d as u32);
            k.tasks[caller].save.a4 = #[verifier::truncate] ((d >> 32) as u32);
        },
        None => {
            k.tasks[caller].save.a2 = 0;
            k.tasks[caller].save.a3 = 0;
            k.tasks[caller].save.a4 = 0;
        },
    }
    k.tasks[caller].save.a5 = timer.to_post;
    proof {
        assert(k.tasks@ =~= old(k).tasks@.update(
            caller as int,
            Task {
                save: timer_return(
                    old(k).tasks@[caller as int].save,
                    old(k).machine.ticks,
                    old(k).tasks@[caller as int].timer,
                ),
                ..old(k).tasks@[caller as int]
            },
        ));
    }
    NextTask::Same
}

/// The full transition contract of the post syscall, relating the
/// kernel before the call, the kernel after it, and the scheduling hint.
pub open spec fn spec_sys_post(pre: Kernel, post: Kernel, hint: NextTask) -> bool {
    &&& (post.profiling == pre.profiling)
    &&& (post.wf())
    &&& (post.machine == pre.machine)
    &&& (post.current == pre.current)
    &&& (post.stamp == pre.stamp)
    &&& (post.ram == pre.ram)
    &&& (post.irq_map == pre.irq_map)
    &&& (post.task_irq_map == pre.task_irq_map)
    &&& (post.panic_message == pre.panic_message)
    &&& (post.tasks@.len() == pre.tasks@.len())
    &&& (hint == NextTask::Same ==> post.tasks@[pre.current as int].is_runnable())
    &&& (({
            let caller = pre.current as int;
            let tasks = pre.tasks@;
            let me = tasks[caller];
            let peer = TaskId(me.save.a0 as u16);
            let pidx = peer.spec_index() as int;
            let bits = me.save.a1;
            if pidx >= tasks.len() {
                &&& post.tasks@ == spec_force_fault_tasks(
                    tasks,
                    caller,
                    FaultInfo::SyscallUsage(UsageError::TaskOutOfRange),
                )
                &&& hint == NextTask::Other
            } else if tasks[pidx].generation != peer.spec_generation() {
                &&& post.tasks@ == tasks.update(
                    caller,
                    Task {
                        save: with_response(
                            me.save,
                            (FIRST_DEAD_CODE + tasks[pidx].generation) as u32,
                            me.save.a1,
                        ),
                        ..me
                    },
                )
                &&& hint == NextTask::Same
            } else if pidx == caller {
                &&& post.tasks@ == tasks.update(
                    caller,
                    Task {
                        notifications_posted: spec_post(me, bits).0.notifications_posted,
                        save: with_response(spec_post(me, bits).0.save, 0, me.save.a1),
                        ..me
                    },
                )
                &&& hint == NextTask::Same
            } else {
                &&& post.tasks@ == tasks.update(
                    pidx,
                    spec_post(tasks[pidx], bits).0,
                ).update(
                    caller,
                    Task { save: with_response(me.save, 0, me.save.a1), ..me },
                )
                &&& hint == (if spec_post(tasks[pidx], bits).1 {
                    NextTask::Other
                } else {
                    NextTask::Same
                })
            }
        }))
}

/// The post syscall: the caller names a peer and notification bits. A
/// stale or absent peer returns the dead-peer code; otherwise the bits are
/// posted, waking the peer if it is receiving with a matching mask, and
/// the caller gets a zero return code.
pub fn sys_post(k: &mut Kernel) -> (hint: NextTask)
    requires
        old(k).wf(),
        old(k).tasks@[old(k).current as int].is_runnable(),
    ensures
        spec_sys_post(*old(k), *final(k), hint),
{
    let ghost len = old(k).tasks@.len() as int;
    let caller = k.current;
    let peer = TaskId(#[verifier::truncate] (k.tasks[caller].save.a0 as u16));
    let pidx = peer.index() as usize;

    if pidx >= k.tasks.len() {
        force_fault(&mut k.tasks, caller, FaultInfo::SyscallUsage(UsageError::TaskOutOfRange));
        proof {
            lemma_force_fault_wf(
                old(k).tasks@,
                caller as int,
                FaultInfo::SyscallUsage(UsageError::TaskOutOfRange),
                len,
                old(k).ram,
            );
        }
        return NextTask::Other;
    }

    if k.tasks[pidx].generation != peer.generation() {
        let rc = crate::abi::dead_response_code(k.tasks[pidx].generation);
        k.tasks[caller].save.a0 = rc;
        proof {
            let me = old(k).tasks@[caller as int];
            assert(k.tasks@ =~= old(k).tasks@.update(
                caller as int,
                Task {
                    save: with_response(
                        me.save,
                        (FIRST_DEAD_CODE + old(k).tasks@[pidx as int].generation) as u32,
                        me.save.a1,
                    ),
                    ..me
                },
            ));
        }
        return NextTask::Same;
    }

    let bits = k.tasks[caller].save.a1;
    let woke = k.tasks[pidx].post(bits);
    k.tasks[caller].save.a0 = 0;

    proof {
        crate::kernel::lemma_post_wf(
            old(k).tasks@[pidx as int],
            bits,
            pidx as int,
            len,
            k.ram,
        );
        let me = old(k).tasks@[caller as int];
        if pidx == caller {
            assert(k.tasks@ =~= old(k).tasks@.update(
                caller as int,
                Task {
                    notifications_posted: spec_post(me, bits).0.notifications_posted,
                    save: with_response(spec_post(me, bits).0.save, 0, me.save.a1),
                    ..me
                },
            ));
        } else {
            assert(k.tasks@ =~= old(k).tasks@.update(
                pidx as int,
                spec_post(old(k).tasks@[pidx as int], bits).0,
            ).update(
                caller as int,
                Task { save: with_response(me.save, 0, me.save.a1), ..me },
            ));
        }
    }

    if woke {
        NextTask::Other
    } else {
        NextTask::Same
    }
}

/// The full transition contract of the refresh-task-id syscall, relating the
/// kernel before the call, the kernel after it, and the scheduling hint.
pub open spec fn spec_sys_refresh_task_id(pre: Kernel, post: Kernel, hint: NextTask) -> bool {
    &&& (post.profiling == pre.profiling)
    &&& (post.wf())
    &&& (post.machine == pre.machine)
    &&& (post.current == pre.current)
    &&& (post.stamp == pre.stamp)
    &&& (post.ram == pre.ram)
    &&& (post.irq_map == pre.irq_map)
    &&& (post.task_irq_map == pre.task_irq_map)
    &&& (post.panic_message == pre.panic_message)
    &&& (post.tasks@.len() == pre.tasks@.len())
    &&& (hint == NextTask::Same ==> post.tasks@[pre.current as int].is_runnable())
    &&& (({
            let caller = pre.current as int;
            let tasks = pre.tasks@;
            let me = tasks[caller];
            let tid = TaskId(me.save.a0 as u16);
            let idx = tid.spec_index() as int;
            if idx >= tasks.len() {
                &&& post.tasks@ == spec_force_fault_tasks(
                    tasks,
                    caller,
                    FaultInfo::SyscallUsage(UsageError::TaskOutOfRange),
                )
                &&& hint == NextTask::Other
            } else {
                &&& post.tasks@ == tasks.update(
                    caller,
                    Task {
                        save: SavedState {
                            a0: tasks[idx].spec_current_id().0 as u32,
                            ..me.save
                        },
                        ..me
                    },
                )
                &&& hint == NextTask::Same
            }
        }))
}

/// The refresh-task-identifier syscall: re-resolves a possibly stale
/// identifier to the named task's current generation.
pub fn sys_refresh_task_id(k: &mut Kernel) -> (hint: NextTask)
    requires
        old(k).wf(),
        old(k).tasks@[old(k).current as int].is_runnable(),
    ensures
        spec_sys_refresh_task_id(*old(k), *final(k), hint),
{
    let ghost len = old(k).tasks@.len() as int;
    let caller = k.current;
    let tid = TaskId(#[verifier::truncate] (k.tasks[caller].save.a0 as u16));
    let idx = tid.index() as usize;

    if idx >= k.tasks.len() {
        force_fault(&mut k.tasks, caller, FaultInfo::SyscallUsage(UsageError::TaskOutOfRange));
        proof {
            lemma_force_fault_wf(
                old(k).tasks@,
                caller as int,
                FaultInfo::SyscallUsage(UsageError::TaskOutOfRange),
                len,
                old(k).ram,
            );
        }
        return NextTask::Other;
    }

    let fresh = k.tasks[idx].current_id();
    k.tasks[caller].save.a0 = fresh.0 as u32;
    proof {
        let me = old(k).tasks@[caller as int];
        assert(k.tasks@ =~= old(k).tasks@.update(
            caller as int,
            Task {
                save: SavedState {
                    a0: old(k).tasks@[idx as int].spec_current_id().0 as u32,
                    ..me.save
                },
                ..me
            },
        ));
    }
    NextTask::Same
}

/// The full transition contract of the reply-fault syscall, relating the
/// kernel before the call, the kernel after it, and the scheduling hint.
pub open spec fn spec_sys_reply_fault(pre: Kernel, post: Kernel, hint: NextTask) -> bool {
    &&& (post.profiling == pre.profiling)
    &&& (post.wf())
    &&& (post.machine == pre.machine)
    &&& (post.current == pre.current)
    &&& (post.stamp == pre.stamp)
    &&& (post.ram == pre.ram)
    &&& (post.irq_map == pre.irq_map)
    &&& (post.task_irq_map == pre.task_irq_map)
    &&& (post.panic_message == pre.panic_message)
    &&& (post.tasks@.len() == pre.tasks@.len())
    &&& (hint == NextTask::Same ==> post.tasks@[pre.current as int].is_runnable())
    &&& (({
            let caller = pre.current as int;
            let tasks = pre.tasks@;
            let me = tasks[caller];
            let peer = TaskId(me.save.a0 as u16);
            let pidx = peer.spec_index() as int;
            if pidx >= tasks.len() {
                &&& post.tasks@ == spec_force_fault_tasks(
                    tasks,
                    caller,
                    FaultInfo::SyscallUsage(UsageError::TaskOutOfRange),
                )
                &&& hint == NextTask::Other
            } else if spec_reply_fault_reason(me.save.a1) is None {
                &&& post.tasks@ == spec_force_fault_tasks(
                    tasks,
                    caller,
                    FaultInfo::SyscallUsage(UsageError::BadSyscallNumber),
                )
                &&& hint == NextTask::Other
            } else if tasks[pidx].generation != peer.spec_generation()
                || tasks[pidx].state != TaskState::Healthy(
                SchedState::InReplyTo(me.spec_current_id()),
            ) {
                &&& post.tasks@ == tasks
                &&& hint == NextTask::Same
            } else {
                &&& post.tasks@ == spec_force_fault_tasks(
                    tasks,
                    pidx,
                    FaultInfo::FromServer(
                        me.spec_current_id(),
                        spec_reply_fault_reason(me.save.a1)->Some_0,
                    ),
                )
                &&& hint == NextTask::Other
            }
        }))
}

/// The reply-fault syscall: a server names a misbehaving client and a
/// reason; instead of a reply the client is faulted with that reason. A
/// stale peer or one not awaiting this caller's reply is dropped
/// silently, as with reply.
pub fn sys_reply_fault(k: &mut Kernel) -> (hint: NextTask)
    requires
        old(k).wf(),
        old(k).tasks@[old(k).current as int].is_runnable(),
    ensures
        spec_sys_reply_fault(*old(k), *final(k), hint),
{
    let ghost len = old(k).tasks@.len() as int;
    let caller = k.current;
    let peer = TaskId(#[verifier::truncate] (k.tasks[caller].save.a0 as u16));
    let pidx = peer.index() as usize;

    if pidx >= k.tasks.len() {
        force_fault(&mut k.tasks, caller, FaultInfo::SyscallUsage(UsageError::TaskOutOfRange));
        proof {
            lemma_force_fault_wf(
                old(k).tasks@,
                caller as int,
                FaultInfo::SyscallUsage(UsageError::TaskOutOfRange),
                len,
                old(k).ram,
            );
        }
        return NextTask::Other;
    }

    let reason = match k.tasks[caller].save.a1 {
        0 => Some(crate::abi::ReplyFaultReason::UndefinedOperation),
        1 => Some(crate::abi::ReplyFaultReason::BadMessageSize),
        2 => Some(crate::abi::ReplyFaultReason::BadMessageContents),
        3 => Some(crate::abi::ReplyFaultReason::ReplyBufferTooSmall),
        4 => Some(crate::abi::ReplyFaultReason::AccessViolation),
        _ => None,
    };
    let reason = match reason {
        Some(r) => r,
        None => {
            force_fault(
                &mut k.tasks,
                caller,
                FaultInfo::SyscallUsage(UsageError::BadSyscallNumber),
            );
            proof {
                lemma_force_fault_wf(
                    old(k).tasks@,
                    caller as int,
                    FaultInfo::SyscallUsage(UsageError::BadSyscallNumber),
                    len,
                    old(k).ram,
                );
            }
            return NextTask::Other;
        },
    };

    let me_id = k.tasks[caller].current_id();
    let waiting = k.tasks[pidx].generation == peer.generation() && match k.tasks[pidx].state {
        TaskState::Healthy(SchedState::InReplyTo(p)) => p == me_id,
        _ => false,
    };
    if !waiting {
        proof {
            let tasks = old(k).tasks@;
            let sid = tasks[caller as int].spec_current_id();
            if tasks[pidx as int].generation == peer.spec_generation() {
                assert(tasks[pidx as int].state != TaskState::Healthy(
                    SchedState::InReplyTo(sid),
                ));
            }
        }
        return NextTask::Same;
    }

    force_fault(&mut k.tasks, pidx, FaultInfo::FromServer(me_id, reason));
    proof {
        lemma_force_fault_wf(
            old(k).tasks@,
            pidx as int,
            FaultInfo::FromServer(me_id, reason),
            len,
            old(k).ram,
        );
    }
    NextTask::Other
}

/// The wire encoding of reply-fault reasons.
pub open spec fn spec_reply_fault_reason(code: u32) -> Option<crate::abi::ReplyFaultReason> {
    if code == 0 {
        Some(crate::abi::ReplyFaultReason::UndefinedOperation)
    } else if code == 1 {
        Some(crate::abi::ReplyFaultReason::BadMessageSize)
    } else if code == 2 {
        Some(crate::abi::ReplyFaultReason::BadMessageContents)
    } else if code == 3 {
        Some(crate::abi::ReplyFaultReason::ReplyBufferTooSmall)
    } else if code == 4 {
        Some(crate::abi::ReplyFaultReason::AccessViolation)
    } else {
        None
    }
}

/// Response code reporting that the named lender is no longer waiting for
/// the borrower's reply.
pub const BORROW_WENT_AWAY: u32 = 1;

/// Response code reporting a defective borrow: a bad lease index or a
/// lease without the needed attribute.
pub const BORROW_DEFECT: u32 = 2;

/// What looking up a lease in a lender's saved registers came to.
#[derive(Copy, Clone, Debug, PartialEq, Eq)]
pub enum LeaseOutcome {
    /// The lender index lay outside the task table; the borrower was
    /// faulted.
    CallerFault,
    /// The lender's generation was stale; the payload is its current
    /// generation.
    Dead(u8),
    /// The lender is not waiting for this borrower's reply.
    WentAway,
    /// The lease index lies beyond the lender's lease array.
    Defect,
    /// The lender's lease array was unreadable; the lender was faulted.
    LenderFault,
    /// The lease record, read out of the lender's memory.
    Granted(ULease),
}

/// Whether the lease record `index` of a lender fits the address space.
pub open spec fn spec_lease_addr_ok(lender: Task, index: u32) -> bool {
    lender.save.a5 + 12 * index + 12 <= 0x1_0000_0000
}

/// The address of lease record `index` in the lender's lease array.
pub open spec fn spec_lease_addr(lender: Task, index: u32) -> int {
    lender.save.a5 + 12 * index
}

/// The lease record stored at offset `off` of `mem`: attributes, base, and
/// length as three little-endian words.
pub open spec fn spec_lease_at(mem: Seq<u8>, off: int) -> ULease {
    ULease {
        attributes: crate::umem::spec_u32_le(mem, off),
        base_address: crate::umem::spec_u32_le(mem, off + 4),
        length: crate::umem::spec_u32_le(mem, off + 8),
    }
}

/// The outcome of looking lease `index` of `lender` up on behalf of the
/// borrower at `caller`.
pub open spec fn spec_lease_lookup(
    tasks: Seq<Task>,
    ram: UserRam,
    caller: int,
    lender: TaskId,
    index: u32,
) -> LeaseOutcome {
    let lidx = lender.spec_index() as int;
    if lidx >= tasks.len() {
        LeaseOutcome::CallerFault
    } else if tasks[lidx].generation != lender.spec_generation() {
        LeaseOutcome::Dead(tasks[lidx].generation)
    } else if tasks[lidx].state != TaskState::Healthy(
        SchedState::InReplyTo(tasks[caller].spec_current_id()),
    ) {
        LeaseOutcome::WentAway
    } else if index >= spec_send_lease_count(tasks[lidx].save) {
        LeaseOutcome::Defect
    } else if !spec_lease_addr_ok(tasks[lidx], index) {
        LeaseOutcome::LenderFault
    } else if !spec_can_access(
        tasks[lidx].region_table@,
        USlice { base: spec_lease_addr(tasks[lidx], index) as u32, len: 12 },
        REGION_READ,
    ) {
        LeaseOutcome::LenderFault
    } else {
        LeaseOutcome::Granted(
            spec_lease_at(ram.mem(), ram.off(spec_lease_addr(tasks[lidx], index))),
        )
    }
}

/// Looks up lease `index` in the lease array the lender's registers
/// describe, on behalf of the current task. Faults the borrower for a bad
/// lender index and the lender for an unreadable lease array; every other
/// failure is reported to the borrower as a response code.
fn lease_lookup(k: &mut Kernel, lender: TaskId, index: u32) -> (o: LeaseOutcome)
    requires
        old(k).wf(),
        old(k).tasks@[old(k).current as int].is_runnable(),
    ensures
        final(k).wf(),
        final(k).machine == old(k).machine,
        final(k).current == old(k).current,
        final(k).stamp == old(k).stamp,
        final(k).ram == old(k).ram,
        final(k).irq_map == old(k).irq_map,
        final(k).task_irq_map == old(k).task_irq_map,
        final(k).panic_message == old(k).panic_message,
        final(k).profiling == old(k).profiling,
        final(k).tasks@.len() == old(k).tasks@.len(),
        o == spec_lease_lookup(
            old(k).tasks@,
            old(k).ram,
            old(k).current as int,
            lender,
            index,
        ),
        ({
            let tasks = old(k).tasks@;
            let caller = old(k).current as int;
            let lidx = lender.spec_index() as int;
            match o {
                LeaseOutcome::CallerFault => final(k).tasks@ == spec_force_fault_tasks(
                    tasks,
                    caller,
                    FaultInfo::SyscallUsage(UsageError::TaskOutOfRange),
                ),
                LeaseOutcome::LenderFault => final(k).tasks@ == spec_force_fault_tasks(
                    tasks,
                    lidx,
                    FaultInfo::MemoryAccess {
                        address: Some(spec_send_lease_base(tasks[lidx].save)),
                        source: FaultSource::User,
                    },
                ),
                _ => final(k).tasks@ == tasks,
            }
        }),
{
    let ghost len = old(k).tasks@.len() as int;
    let caller = k.current;
    let lidx = lender.index() as usize;

    if lidx >= k.tasks.len() {
        force_fault(&mut k.tasks, caller, FaultInfo::SyscallUsage(UsageError::TaskOutOfRange));
        proof {
            lemma_force_fault_wf(
                old(k).tasks@,
                caller as int,
                FaultInfo::SyscallUsage(UsageError::TaskOutOfRange),
                len,
                old(k).ram,
            );
        }
        return LeaseOutcome::CallerFault;
    }

    let lgen = k.tasks[lidx].generation;
    if lgen != lender.generation() {
        return LeaseOutcome::Dead(lgen);
    }

    let me_id = k.tasks[caller].current_id();
    let waiting = match k.tasks[lidx].state {
        TaskState::Healthy(SchedState::InReplyTo(p)) => p == me_id,
        _ => false,
    };
    if !waiting {
        return LeaseOutcome::WentAway;
    }

    if index >= k.tasks[lidx].save.a6 {
        return LeaseOutcome::Defect;
    }

    let base = k.tasks[lidx].save.a5;
    let addr64: u64 = base as u64 + 12u64 * index as u64;
    if addr64 + 12 > 0x1_0000_0000u64 {
        force_fault(
            &mut k.tasks,
            lidx,
            FaultInfo::MemoryAccess { address: Some(base), source: FaultSource::User },
        );
        proof {
            lemma_force_fault_wf(
                old(k).tasks@,
                lidx as int,
                FaultInfo::MemoryAccess { address: Some(base), source: FaultSource::User },
                len,
                old(k).ram,
            );
        }
        return LeaseOutcome::LenderFault;
    }
    let addr: u32 = #[verifier::truncate] (addr64 as u32);
    proof {
        assert(addr == spec_lease_addr(old(k).tasks@[lidx as int], index));
    }
    let slice = USlice { base: addr, len: 12 };
    if !can_access(&k.tasks[lidx].region_table, slice, REGION_READ) {
        force_fault(
            &mut k.tasks,
            lidx,
            FaultInfo::MemoryAccess { address: Some(base), source: FaultSource::User },
        );
        proof {
            lemma_force_fault_wf(
                old(k).tasks@,
                lidx as int,
                FaultInfo::MemoryAccess { address: Some(base), source: FaultSource::User },
                len,
                old(k).ram,
            );
        }
        return LeaseOutcome::LenderFault;
    }

    proof {
        lemma_access_in_ram(
            old(k).tasks@[lidx as int].region_table@,
            slice,
            REGION_READ,
            old(k).ram,
        );
        assert(k.ram.spec_contains(addr as int, 12));
        assert(k.ram.spec_contains(addr as int + 4, 4));
        assert(k.ram.spec_contains(addr as int + 8, 4));
    }
    let attributes = k.ram.read_u32(addr);
    let base_address = k.ram.read_u32(addr + 4);
    let length = k.ram.read_u32(addr + 8);
    LeaseOutcome::Granted(ULease { attributes, base_address, length })
}

/// The number of bytes a borrow at `offset` moves: the part of the lease
/// from `offset` on, clamped to the borrower's buffer length.
pub open spec fn spec_borrow_len(offset: u32, buf_len: u32, lease_len: u32) -> u32 {
    let end = if offset + buf_len <= lease_len {
        offset + buf_len
    } else {
        lease_len as int
    };
    if end > offset {
        (end - offset) as u32
    } else {
        0
    }
}

/// Computes the length a borrow moves.
fn borrow_len(offset: u32, buf_len: u32, lease_len: u32) -> (n: u32)
    ensures
        n == spec_borrow_len(offset, buf_len, lease_len),
        n <= buf_len,
        offset + n <= lease_len || n == 0,
{
    let end64: u64 = if offset as u64 + buf_len as u64 <= lease_len as u64 {
        offset as u64 + buf_len as u64
    } else {
        lease_len as u64
    };
    if end64 > offset as u64 {
        #[verifier::truncate] ((end64 - offset as u64) as u32)
    } else {
        0
    }
}

/// A register file carrying a three-word syscall response.
pub open spec fn with_response3(save: SavedState, rc: u32, b: u32, c: u32) -> SavedState {
    SavedState { a0: rc, a1: b, a2: c, ..save }
}

/// The full transition contract of the borrow-read syscall, relating the
/// kernel before the call, the kernel after it, and the scheduling hint.
pub open spec fn spec_sys_borrow_read(pre: Kernel, post: Kernel, hint: NextTask) -> bool {
    &&& (post.profiling == pre.profiling)
    &&& (post.wf())
    &&& (post.machine == pre.machine)
    &&& (post.current == pre.current)
    &&& (post.stamp == pre.stamp)
    &&& (post.irq_map == pre.irq_map)
    &&& (post.task_irq_map == pre.task_irq_map)
    &&& (post.panic_message == pre.panic_message)
    &&& (post.tasks@.len() == pre.tasks@.len())
    &&& (hint == NextTask::Same ==> post.tasks@[pre.current as int].is_runnable())
    &&& (({
            let caller = pre.current as int;
            let tasks = pre.tasks@;
            let me = tasks[caller];
            let lender = TaskId(me.save.a0 as u16);
            let lidx = lender.spec_index() as int;
            let index = me.save.a1;
            let offset = me.save.a2;
            let dest = USlice { base: me.save.a3, len: me.save.a4 };
            match spec_lease_lookup(tasks, pre.ram, caller, lender, index) {
                LeaseOutcome::CallerFault => {
                    &&& post.tasks@ == spec_force_fault_tasks(
                        tasks,
                        caller,
                        FaultInfo::SyscallUsage(UsageError::TaskOutOfRange),
                    )
                    &&& post.ram == pre.ram
                    &&& hint == NextTask::Other
                },
                LeaseOutcome::Dead(g) => {
                    &&& post.tasks@ == tasks.update(
                        caller,
                        Task {
                            save: with_response(me.save, (FIRST_DEAD_CODE + g) as u32, 0),
                            ..me
                        },
                    )
                    &&& post.ram == pre.ram
                    &&& hint == NextTask::Same
                },
                LeaseOutcome::WentAway => {
                    &&& post.tasks@ == tasks.update(
                        caller,
                        Task { save: with_response(me.save, BORROW_WENT_AWAY, 0), ..me },
                    )
                    &&& post.ram == pre.ram
                    &&& hint == NextTask::Same
                },
                LeaseOutcome::Defect => {
                    &&& post.tasks@ == tasks.update(
                        caller,
                        Task { save: with_response(me.save, BORROW_DEFECT, 0), ..me },
                    )
                    &&& post.ram == pre.ram
                    &&& hint == NextTask::Same
                },
                LeaseOutcome::LenderFault => {
                    let forced = spec_force_fault_tasks(
                        tasks,
                        lidx,
                        FaultInfo::MemoryAccess {
                            address: Some(spec_send_lease_base(tasks[lidx].save)),
                            source: FaultSource::User,
                        },
                    );
                    &&& post.tasks@ == forced.update(
                        caller,
                        Task {
                            save: with_response(forced[caller].save, BORROW_WENT_AWAY, 0),
                            ..forced[caller]
                        },
                    )
                    &&& post.ram == pre.ram
                    &&& hint == NextTask::Other
                },
                LeaseOutcome::Granted(l) => {
                    let n = spec_borrow_len(offset, dest.len, l.length);
                    let src = USlice { base: (l.base_address + offset) as u32, len: n };
                    if l.attributes & crate::abi::LEASE_READ == 0 {
                        &&& post.tasks@ == tasks.update(
                            caller,
                            Task { save: with_response(me.save, BORROW_DEFECT, 0), ..me },
                        )
                        &&& post.ram == pre.ram
                        &&& hint == NextTask::Same
                    } else if l.base_address + offset + n > 0x1_0000_0000 || !spec_can_access(
                        tasks[lidx].region_table@,
                        src,
                        REGION_READ,
                    ) {
                        let forced = spec_force_fault_tasks(
                            tasks,
                            lidx,
                            FaultInfo::MemoryAccess {
                                address: Some(l.base_address),
                                source: FaultSource::User,
                            },
                        );
                        &&& post.tasks@ == forced.update(
                            caller,
                            Task {
                                save: with_response(
                                    forced[caller].save,
                                    BORROW_WENT_AWAY,
                                    0,
                                ),
                                ..forced[caller]
                            },
                        )
                        &&& post.ram == pre.ram
                        &&& hint == NextTask::Other
                    } else if !spec_can_access(me.region_table@, dest, REGION_WRITE) {
                        &&& post.tasks@ == spec_force_fault_tasks(
                            tasks,
                            caller,
                            FaultInfo::MemoryAccess {
                                address: Some(dest.base),
                                source: FaultSource::User,
                            },
                        )
                        &&& post.ram == pre.ram
                        &&& hint == NextTask::Other
                    } else {
                        &&& post.tasks@ == tasks.update(
                            caller,
                            Task { save: with_response(me.save, 0, n), ..me },
                        )
                        &&& deliver_ram(
                            pre.ram,
                            post.ram,
                            src,
                            USlice { base: dest.base, len: n },
                        )
                        &&& hint == NextTask::Same
                    }
                },
            }
        }))
}

/// The borrow-read syscall: the current receiver reads out of a lease a
/// blocked sender granted it. The lease must carry the read attribute; the
/// kernel checks the leased bytes against the lender's region table and
/// the destination against the borrower's, copies the lease's bytes from
/// `offset` on into the destination, and returns how many moved.
pub fn sys_borrow_read(k: &mut Kernel) -> (hint: NextTask)
    requires
        old(k).wf(),
        old(k).tasks@[old(k).current as int].is_runnable(),
    ensures
        spec_sys_borrow_read(*old(k), *final(k), hint),
{
    let ghost len = old(k).tasks@.len() as int;
    let caller = k.current;
    let lender = TaskId(#[verifier::truncate] (k.tasks[caller].save.a0 as u16));
    let lidx = lender.index() as usize;
    let index = k.tasks[caller].save.a1;
    let offset = k.tasks[caller].save.a2;
    let dest = USlice { base: k.tasks[caller].save.a3, len: k.tasks[caller].save.a4 };

    let lease = match lease_lookup(k, lender, index) {
        LeaseOutcome::CallerFault => {
            return NextTask::Other;
        },
        LeaseOutcome::Dead(g) => {
            let rc = crate::abi::dead_response_code(g);
            k.tasks[caller].save.a0 = rc;
            k.tasks[caller].save.a1 = 0;
            proof {
                let me = old(k).tasks@[caller as int];
                assert(k.tasks@ =~= old(k).tasks@.update(
                    caller as int,
                    Task { save: with_response(me.save, (FIRST_DEAD_CODE + g) as u32, 0), ..me },
                ));
            }
            return NextTask::Same;
        },
        LeaseOutcome::WentAway => {
            k.tasks[caller].save.a0 = BORROW_WENT_AWAY;
            k.tasks[caller].save.a1 = 0;
            proof {
                let me = old(k).tasks@[caller as int];
                assert(k.tasks@ =~= old(k).tasks@.update(
                    caller as int,
                    Task { save: with_response(me.save, BORROW_WENT_AWAY, 0), ..me },
                ));
            }
            return NextTask::Same;
        },
        LeaseOutcome::Defect => {
            k.tasks[caller].save.a0 = BORROW_DEFECT;
            k.tasks[caller].save.a1 = 0;
            proof {
                let me = old(k).tasks@[caller as int];
                assert(k.tasks@ =~= old(k).tasks@.update(
                    caller as int,
                    Task { save: with_response(me.save, BORROW_DEFECT, 0), ..me },
                ));
            }
            return NextTask::Same;
        },
        LeaseOutcome::LenderFault => {
            let ghost forced = k.tasks@;
            k.tasks[caller].save.a0 = BORROW_WENT_AWAY;
            k.tasks[caller].save.a1 = 0;
            proof {
                assert(k.tasks@ =~= forced.update(
                    caller as int,
                    Task {
                        save: with_response(forced[caller as int].save, BORROW_WENT_AWAY, 0),
                        ..forced[caller as int]
                    },
                ));
            }
            return NextTask::Other;
        },
        LeaseOutcome::Granted(l) => l,
    };

    if l_attr_missing(lease.attributes, crate::abi::LEASE_READ) {
        k.tasks[caller].save.a0 = BORROW_DEFECT;
        k.tasks[caller].save.a1 = 0;
        proof {
            let me = old(k).tasks@[caller as int];
            assert(k.tasks@ =~= old(k).tasks@.update(
                caller as int,
                Task { save: with_response(me.save, BORROW_DEFECT, 0), ..me },
            ));
        }
        return NextTask::Same;
    }

    let n = borrow_len(offset, dest.len, lease.length);
    let src_end: u64 = lease.base_address as u64 + offset as u64 + n as u64;
    let src_bad = src_end > 0x1_0000_0000u64;
    let src = USlice {
        base: #[verifier::truncate] (
            (lease.base_address as u64 + offset as u64) as u32
        ),
        len: n,
    };
    if src_bad || !can_access(&k.tasks[lidx].region_table, src, REGION_READ) {
        force_fault(
            &mut k.tasks,
            lidx,
            FaultInfo::MemoryAccess {
                address: Some(lease.base_address),
                source: FaultSource::User,
            },
        );
        proof {
            lemma_force_fault_wf(
                old(k).tasks@,
                lidx as int,
                FaultInfo::MemoryAccess {
                    address: Some(lease.base_address),
                    source: FaultSource::User,
                },
                len,
                old(k).ram,
            );
        }
        let ghost forced = k.tasks@;
        k.tasks[caller].save.a0 = BORROW_WENT_AWAY;
        k.tasks[caller].save.a1 = 0;
        proof {
            assert(k.tasks@ =~= forced.update(
                caller as int,
                Task {
                    save: with_response(forced[caller as int].save, BORROW_WENT_AWAY, 0),
                    ..forced[caller as int]
                },
            ));
        }
        return NextTask::Other;
    }

    if !can_access(&k.tasks[caller].region_table, dest, REGION_WRITE) {
        force_fault(
            &mut k.tasks,
            caller,
            FaultInfo::MemoryAccess { address: Some(dest.base), source: FaultSource::User },
        );
        proof {
            lemma_force_fault_wf(
                old(k).tasks@,
                caller as int,
                FaultInfo::MemoryAccess {
                    address: Some(dest.base),
                    source: FaultSource::User,
                },
                len,
                old(k).ram,
            );
        }
        return NextTask::Other;
    }

    if n > 0 {
        proof {
            lemma_access_in_ram(
                old(k).tasks@[lidx as int].region_table@,
                src,
                REGION_READ,
                old(k).ram,
            );
            lemma_access_in_ram(
                old(k).tasks@[caller as int].region_table@,
                dest,
                REGION_WRITE,
                old(k).ram,
            );
            assert(k.ram == old(k).ram);
            assert(k.ram.spec_contains(src.base as int, n as int));
            assert(k.ram.spec_contains(dest.base as int, n as int));
        }
        let data = k.ram.read_bytes(src.base, n);
        proof {
            assert(data@.len() == n as int);
        }
        k.ram.write_bytes(dest.base, &data);
        proof {
            assert forall|j: int| 0 <= j < n implies #[trigger] k.ram.mem()[old(k).ram.off(
                dest.base + j,
            )] == old(k).ram.mem()[old(k).ram.off(src.base + j)] by {
                assert(k.ram.mem()[old(k).ram.off(dest.base as int) + j] == data@[j]);
                assert(data@[j] == old(k).ram.mem()[old(k).ram.off(src.base as int) + j]);
            }
        }
    }

    k.tasks[caller].save.a0 = 0;
    k.tasks[caller].save.a1 = n;
    proof {
        let me = old(k).tasks@[caller as int];
        assert(k.tasks@ =~= old(k).tasks@.update(
            caller as int,
            Task { save: with_response(me.save, 0, n), ..me },
        ));
        assert forall|i: int| 0 <= i < len implies task_wf(
            #[trigger] k.tasks@[i],
            i,
            len,
            k.ram,
        ) by {
            assert(task_wf(old(k).tasks@[i], i, len, old(k).ram));
            assert(k.ram.base == old(k).ram.base);
            assert(k.ram.mem().len() == old(k).ram.mem().len());
        }
    }
    NextTask::Same
}

/// Whether a lease lacks the attribute bit a borrow needs.
fn l_attr_missing(attributes: u32, needed: u32) -> (r: bool)
    ensures
        r == (attributes & needed == 0),
{
    attributes & needed == 0
}

/// The full transition contract of the borrow-write syscall, relating the
/// kernel before the call, the kernel after it, and the scheduling hint.
pub open spec fn spec_sys_borrow_write(pre: Kernel, post: Kernel, hint: NextTask) -> bool {
    &&& (post.profiling == pre.profiling)
    &&& (post.wf())
    &&& (post.machine == pre.machine)
    &&& (post.current == pre.current)
    &&& (post.stamp == pre.stamp)
    &&& (post.irq_map == pre.irq_map)
    &&& (post.task_irq_map == pre.task_irq_map)
    &&& (post.panic_message == pre.panic_message)
    &&& (post.tasks@.len() == pre.tasks@.len())
    &&& (hint == NextTask::Same ==> post.tasks@[pre.current as int].is_runnable())
    &&& (({
            let caller = pre.current as int;
            let tasks = pre.tasks@;
            let me = tasks[caller];
            let lender = TaskId(me.save.a0 as u16);
            let lidx = lender.spec_index() as int;
            let index = me.save.a1;
            let offset = me.save.a2;
            let source = USlice { base: me.save.a3, len: me.save.a4 };
            match spec_lease_lookup(tasks, pre.ram, caller, lender, index) {
                LeaseOutcome::CallerFault => {
                    &&& post.tasks@ == spec_force_fault_tasks(
                        tasks,
                        caller,
                        FaultInfo::SyscallUsage(UsageError::TaskOutOfRange),
                    )
                    &&& post.ram == pre.ram
                    &&& hint == NextTask::Other
                },
                LeaseOutcome::Dead(g) => {
                    &&& post.tasks@ == tasks.update(
                        caller,
                        Task {
                            save: with_response(me.save, (FIRST_DEAD_CODE + g) as u32, 0),
                            ..me
                        },
                    )
                    &&& post.ram == pre.ram
                    &&& hint == NextTask::Same
                },
                LeaseOutcome::WentAway => {
                    &&& post.tasks@ == tasks.update(
                        caller,
                        Task { save: with_response(me.save, BORROW_WENT_AWAY, 0), ..me },
                    )
                    &&& post.ram == pre.ram
                    &&& hint == NextTask::Same
                },
                LeaseOutcome::Defect => {
                    &&& post.tasks@ == tasks.update(
                        caller,
                        Task { save: with_response(me.save, BORROW_DEFECT, 0), ..me },
                    )
                    &&& post.ram == pre.ram
                    &&& hint == NextTask::Same
                },
                LeaseOutcome::LenderFault => {
                    let forced = spec_force_fault_tasks(
                        tasks,
                        lidx,
                        FaultInfo::MemoryAccess {
                            address: Some(spec_send_lease_base(tasks[lidx].save)),
                            source: FaultSource::User,
                        },
                    );
                    &&& post.tasks@ == forced.update(
                        caller,
                        Task {
                            save: with_response(forced[caller].save, BORROW_WENT_AWAY, 0),
                            ..forced[caller]
                        },
                    )
                    &&& post.ram == pre.ram
                    &&& hint == NextTask::Other
                },
                LeaseOutcome::Granted(l) => {
                    let n = spec_borrow_len(offset, source.len, l.length);
                    let target = USlice { base: (l.base_address + offset) as u32, len: n };
                    if l.attributes & crate::abi::LEASE_WRITE == 0 {
                        &&& post.tasks@ == tasks.update(
                            caller,
                            Task { save: with_response(me.save, BORROW_DEFECT, 0), ..me },
                        )
                        &&& post.ram == pre.ram
                        &&& hint == NextTask::Same
                    } else if l.base_address + offset + n > 0x1_0000_0000 || !spec_can_access(
                        tasks[lidx].region_table@,
                        target,
                        REGION_WRITE,
                    ) {
                        let forced = spec_force_fault_tasks(
                            tasks,
                            lidx,
                            FaultInfo::MemoryAccess {
                                address: Some(l.base_address),
                                source: FaultSource::User,
                            },
                        );
                        &&& post.tasks@ == forced.update(
                            caller,
                            Task {
                                save: with_response(
                                    forced[caller].save,
                                    BORROW_WENT_AWAY,
                                    0,
                                ),
                                ..forced[caller]
                            },
                        )
                        &&& post.ram == pre.ram
                        &&& hint == NextTask::Other
                    } else if !spec_can_access(me.region_table@, source, REGION_READ) {
                        &&& post.tasks@ == spec_force_fault_tasks(
                            tasks,
                            caller,
                            FaultInfo::MemoryAccess {
                                address: Some(source.base),
                                source: FaultSource::User,
                            },
                        )
                        &&& post.ram == pre.ram
                        &&& hint == NextTask::Other
                    } else {
                        &&& post.tasks@ == tasks.update(
                            caller,
                            Task { save: with_response(me.save, 0, n), ..me },
                        )
                        &&& deliver_ram(
                            pre.ram,
                            post.ram,
                            USlice { base: source.base, len: n },
                            target,
                        )
                        &&& hint == NextTask::Same
                    }
                },
            }
        }))
}

/// The borrow-write syscall: the current receiver writes into a lease a
/// blocked sender granted it. The lease must carry the write attribute;
/// the kernel checks the borrower's source buffer against its region
/// table and the leased bytes against the lender's, copies the source
/// into the lease from `offset` on, and returns how many bytes moved.
pub fn sys_borrow_write(k: &mut Kernel) -> (hint: NextTask)
    requires
        old(k).wf(),
        old(k).tasks@[old(k).current as int].is_runnable(),
    ensures
        spec_sys_borrow_write(*old(k), *final(k), hint),
{
    let ghost len = old(k).tasks@.len() as int;
    let caller = k.current;
    let lender = TaskId(#[verifier::truncate] (k.tasks[caller].save.a0 as u16));
    let lidx = lender.index() as usize;
    let index = k.tasks[caller].save.a1;
    let offset = k.tasks[caller].save.a2;
    let source = USlice { base: k.tasks[caller].save.a3, len: k.tasks[caller].save.a4 };

    let lease = match lease_lookup(k, lender, index) {
        LeaseOutcome::CallerFault => {
            return NextTask::Other;
        },
        LeaseOutcome::Dead(g) => {
            let rc = crate::abi::dead_response_code(g);
            k.tasks[caller].save.a0 = rc;
            k.tasks[caller].save.a1 = 0;
            proof {
                let me = old(k).tasks@[caller as int];
                assert(k.tasks@ =~= old(k).tasks@.update(
                    caller as int,
                    Task { save: with_response(me.save, (FIRST_DEAD_CODE + g) as u32, 0), ..me },
                ));
            }
            return NextTask::Same;
        },
        LeaseOutcome::WentAway => {
            k.tasks[caller].save.a0 = BORROW_WENT_AWAY;
            k.tasks[caller].save.a1 = 0;
            proof {
                let me = old(k).tasks@[caller as int];
                assert(k.tasks@ =~= old(k).tasks@.update(
                    caller as int,
                    Task { save: with_response(me.save, BORROW_WENT_AWAY, 0), ..me },
                ));
            }
            return NextTask::Same;
        },
        LeaseOutcome::Defect => {
            k.tasks[caller].save.a0 = BORROW_DEFECT;
            k.tasks[caller].save.a1 = 0;
            proof {
                let me = old(k).tasks@[caller as int];
                assert(k.tasks@ =~= old(k).tasks@.update(
                    caller as int,
                    Task { save: with_response(me.save, BORROW_DEFECT, 0), ..me },
                ));
            }
            return NextTask::Same;
        },
        LeaseOutcome::LenderFault => {
            let ghost forced = k.tasks@;
            k.tasks[caller].save.a0 = BORROW_WENT_AWAY;
            k.tasks[caller].save.a1 = 0;
            proof {
                assert(k.tasks@ =~= forced.update(
                    caller as int,
                    Task {
                        save: with_response(forced[caller as int].save, BORROW_WENT_AWAY, 0),
                        ..forced[caller as int]
                    },
                ));
            }
            return NextTask::Other;
        },
        LeaseOutcome::Granted(l) => l,
    };

    if l_attr_missing(lease.attributes, crate::abi::LEASE_WRITE) {
        k.tasks[caller].save.a0 = BORROW_DEFECT;
        k.tasks[caller].save.a1 = 0;
        proof {
            let me = old(k).tasks@[caller as int];
            assert(k.tasks@ =~= old(k).tasks@.update(
                caller as int,
                Task { save: with_response(me.save, BORROW_DEFECT, 0), ..me },
            ));
        }
        return NextTask::Same;
    }

    let n = borrow_len(offset, source.len, lease.length);
    let target_end: u64 = lease.base_address as u64 + offset as u64 + n as u64;
    let target_bad = target_end > 0x1_0000_0000u64;
    let target = USlice {
        base: #[verifier::truncate] (
            (lease.base_address as u64 + offset as u64) as u32
        ),
        len: n,
    };
    if target_bad || !can_access(&k.tasks[lidx].region_table, target, REGION_WRITE) {
        force_fault(
            &mut k.tasks,
            lidx,
            FaultInfo::MemoryAccess {
                address: Some(lease.base_address),
                source: FaultSource::User,
            },
        );
        proof {
            lemma_force_fault_wf(
                old(k).tasks@,
                lidx as int,
                FaultInfo::MemoryAccess {
                    address: Some(lease.base_address),
                    source: FaultSource::User,
                },
                len,
                old(k).ram,
            );
        }
        let ghost forced = k.tasks@;
        k.tasks[caller].save.a0 = BORROW_WENT_AWAY;
        k.tasks[caller].save.a1 = 0;
        proof {
            assert(k.tasks@ =~= forced.update(
                caller as int,
                Task {
                    save: with_response(forced[caller as int].save, BORROW_WENT_AWAY, 0),
                    ..forced[caller as int]
                },
            ));
        }
        return NextTask::Other;
    }

    if !can_access(&k.tasks[caller].region_table, source, REGION_READ) {
        force_fault(
            &mut k.tasks,
            caller,
            FaultInfo::MemoryAccess { address: Some(source.base), source: FaultSource::User },
        );
        proof {
            lemma_force_fault_wf(
                old(k).tasks@,
                caller as int,
                FaultInfo::MemoryAccess {
                    address: Some(source.base),
                    source: FaultSource::User,
                },
                len,
                old(k).ram,
            );
        }
        return NextTask::Other;
    }

    if n > 0 {
        proof {
            lemma_access_in_ram(
                old(k).tasks@[caller as int].region_table@,
                source,
                REGION_READ,
                old(k).ram,
            );
            lemma_access_in_ram(
                old(k).tasks@[lidx as int].region_table@,
                target,
                REGION_WRITE,
                old(k).ram,
            );
            assert(k.ram == old(k).ram);
            assert(k.ram.spec_contains(source.base as int, n as int));
            assert(k.ram.spec_contains(target.base as int, n as int));
        }
        let data = k.ram.read_bytes(source.base, n);
        proof {
            assert(data@.len() == n as int);
        }
        k.ram.write_bytes(target.base, &data);
        proof {
            assert forall|j: int| 0 <= j < n implies #[trigger] k.ram.mem()[old(k).ram.off(
                target.base + j,
            )] == old(k).ram.mem()[old(k).ram.off(source.base + j)] by {
                assert(k.ram.mem()[old(k).ram.off(target.base as int) + j] == data@[j]);
                assert(data@[j] == old(k).ram.mem()[old(k).ram.off(source.base as int) + j]);
            }
        }
    }

    k.tasks[caller].save.a0 = 0;
    k.tasks[caller].save.a1 = n;
    proof {
        let me = old(k).tasks@[caller as int];
        assert(k.tasks@ =~= old(k).tasks@.update(
            caller as int,
            Task { save: with_response(me.save, 0, n), ..me },
        ));
        assert forall|i: int| 0 <= i < len implies task_wf(
            #[trigger] k.tasks@[i],
            i,
            len,
            k.ram,
        ) by {
            assert(task_wf(old(k).tasks@[i], i, len, old(k).ram));
            assert(k.ram.base == old(k).ram.base);
            assert(k.ram.mem().len() == old(k).ram.mem().len());
        }
    }
    NextTask::Same
}

/// The full transition contract of the borrow-info syscall, relating the
/// kernel before the call, the kernel after it, and the scheduling hint.
pub open spec fn spec_sys_borrow_info(pre: Kernel, post: Kernel, hint: NextTask) -> bool {
    &&& (post.profiling == pre.profiling)
    &&& (post.wf())
    &&& (post.machine == pre.machine)
    &&& (post.current == pre.current)
    &&& (post.stamp == pre.stamp)
    &&& (post.ram == pre.ram)
    &&& (post.irq_map == pre.irq_map)
    &&& (post.task_irq_map == pre.task_irq_map)
    &&& (post.panic_message == pre.panic_message)
    &&& (post.tasks@.len() == pre.tasks@.len())
    &&& (hint == NextTask::Same ==> post.tasks@[pre.current as int].is_runnable())
    &&& (({
            let caller = pre.current as int;
            let tasks = pre.tasks@;
            let me = tasks[caller];
            let lender = TaskId(me.save.a0 as u16);
            let lidx = lender.spec_index() as int;
            let index = me.save.a1;
            match spec_lease_lookup(tasks, pre.ram, caller, lender, index) {
                LeaseOutcome::CallerFault => {
                    &&& post.tasks@ == spec_force_fault_tasks(
                        tasks,
                        caller,
                        FaultInfo::SyscallUsage(UsageError::TaskOutOfRange),
                    )
                    &&& hint == NextTask::Other
                },
                LeaseOutcome::Dead(g) => {
                    &&& post.tasks@ == tasks.update(
                        caller,
                        Task {
                            save: with_response3(me.save, (FIRST_DEAD_CODE + g) as u32, 0, 0),
                            ..me
                        },
                    )
                    &&& hint == NextTask::Same
                },
                LeaseOutcome::WentAway => {
                    &&& post.tasks@ == tasks.update(
                        caller,
                        Task { save: with_response3(me.save, BORROW_WENT_AWAY, 0, 0), ..me },
                    )
                    &&& hint == NextTask::Same
                },
                LeaseOutcome::Defect => {
                    &&& post.tasks@ == tasks.update(
                        caller,
                        Task { save: with_response3(me.save, BORROW_DEFECT, 0, 0), ..me },
                    )
                    &&& hint == NextTask::Same
                },
                LeaseOutcome::LenderFault => {
                    let forced = spec_force_fault_tasks(
                        tasks,
                        lidx,
                        FaultInfo::MemoryAccess {
                            address: Some(spec_send_lease_base(tasks[lidx].save)),
                            source: FaultSource::User,
                        },
                    );
                    &&& post.tasks@ == forced.update(
                        caller,
                        Task {
                            save: with_response3(
                                forced[caller].save,
                                BORROW_WENT_AWAY,
                                0,
                                0,
                            ),
                            ..forced[caller]
                        },
                    )
                    &&& hint == NextTask::Other
                },
                LeaseOutcome::Granted(l) => {
                    &&& post.tasks@ == tasks.update(
                        caller,
                        Task {
                            save: with_response3(me.save, 0, l.attributes, l.length),
                            ..me
                        },
                    )
                    &&& hint == NextTask::Same
                },
            }
        }))
}

/// The borrow-info syscall: reports a lease's attribute bits and length
/// without touching its memory.
pub fn sys_borrow_info(k: &mut Kernel) -> (hint: NextTask)
    requires
        old(k).wf(),
        old(k).tasks@[old(k).current as int].is_runnable(),
    ensures
        spec_sys_borrow_info(*old(k), *final(k), hint),
{
    let ghost len = old(k).tasks@.len() as int;
    let caller = k.current;
    let lender = TaskId(#[verifier::truncate] (k.tasks[caller].save.a0 as u16));
    let index = k.tasks[caller].save.a1;

    match lease_lookup(k, lender, index) {
        LeaseOutcome::CallerFault => NextTask::Other,
        LeaseOutcome::Dead(g) => {
            let rc = crate::abi::dead_response_code(g);
            k.tasks[caller].save.a0 = rc;
            k.tasks[caller].save.a1 = 0;
            k.tasks[caller].save.a2 = 0;
            proof {
                let me = old(k).tasks@[caller as int];
                assert(k.tasks@ =~= old(k).tasks@.update(
                    caller as int,
                    Task {
                        save: with_response3(me.save, (FIRST_DEAD_CODE + g) as u32, 0, 0),
                        ..me
                    },
                ));
            }
            NextTask::Same
        },
        LeaseOutcome::WentAway => {
            k.tasks[caller].save.a0 = BORROW_WENT_AWAY;
            k.tasks[caller].save.a1 = 0;
            k.tasks[caller].save.a2 = 0;
            proof {
                let me = old(k).tasks@[caller as int];
                assert(k.tasks@ =~= old(k).tasks@.update(
                    caller as int,
                    Task { save: with_response3(me.save, BORROW_WENT_AWAY, 0, 0), ..me },
                ));
            }
            NextTask::Same
        },
        LeaseOutcome::Defect => {
            k.tasks[caller].save.a0 = BORROW_DEFECT;
            k.tasks[caller].save.a1 = 0;
            k.tasks[caller].save.a2 = 0;
            proof {
                let me = old(k).tasks@[caller as int];
                assert(k.tasks@ =~= old(k).tasks@.update(
                    caller as int,
                    Task { save: with_response3(me.save, BORROW_DEFECT, 0, 0), ..me },
                ));
            }
            NextTask::Same
        },
        LeaseOutcome::LenderFault => {
            let ghost forced = k.tasks@;
            k.tasks[caller].save.a0 = BORROW_WENT_AWAY;
            k.tasks[caller].save.a1 = 0;
            k.tasks[caller].save.a2 = 0;
            proof {
                assert(k.tasks@ =~= forced.update(
                    caller as int,
                    Task {
                        save: with_response3(
                            forced[caller as int].save,
                            BORROW_WENT_AWAY,
                            0,
                            0,
                        ),
                        ..forced[caller as int]
                    },
                ));
            }
            NextTask::Other
        },
        LeaseOutcome::Granted(l) => {
            k.tasks[caller].save.a0 = 0;
            k.tasks[caller].save.a1 = l.attributes;
            k.tasks[caller].save.a2 = l.length;
            proof {
                let me = old(k).tasks@[caller as int];
                assert(k.tasks@ =~= old(k).tasks@.update(
                    caller as int,
                    Task { save: with_response3(me.save, 0, l.attributes, l.length), ..me },
                ));
            }
            NextTask::Same
        },
    }
}

/// The interrupt-enable bits after masking or unmasking the first `k`
/// interrupts of `irqs`, in order.
pub open spec fn spec_mask_irqs_upto(
    mie: u32,
    irqs: Seq<crate::abi::InterruptNum>,
    k: int,
    enable: bool,
) -> u32
    decreases k,
{
    if k <= 0 {
        mie
    } else {
        let prev = spec_mask_irqs_upto(mie, irqs, k - 1, enable);
        if enable {
            prev | (1u32 << irqs[k - 1].0)
        } else {
            prev & !(1u32 << irqs[k - 1].0)
        }
    }
}

/// The interrupt-enable bits after masking or unmasking every interrupt
/// of `irqs`.
pub open spec fn spec_mask_irqs(mie: u32, irqs: Seq<crate::abi::InterruptNum>, enable: bool) -> u32 {
    spec_mask_irqs_upto(mie, irqs, irqs.len() as int, enable)
}

/// The full transition contract of the irq-control syscall, relating the
/// kernel before the call, the kernel after it, and the scheduling hint.
pub open spec fn spec_sys_irq_control(pre: Kernel, post: Kernel, hint: NextTask) -> bool {
    &&& (post.profiling == pre.profiling)
    &&& (post.wf())
    &&& (post.current == pre.current)
    &&& (post.stamp == pre.stamp)
    &&& (post.ram == pre.ram)
    &&& (post.irq_map == pre.irq_map)
    &&& (post.task_irq_map == pre.task_irq_map)
    &&& (post.panic_message == pre.panic_message)
    &&& (post.tasks@.len() == pre.tasks@.len())
    &&& (post.machine.ticks == pre.machine.ticks)
    &&& (hint == NextTask::Same ==> post.tasks@[pre.current as int].is_runnable())
    &&& (({
            let caller = pre.current as int;
            let tasks = pre.tasks@;
            let me = tasks[caller];
            let owner = crate::abi::InterruptOwner {
                task: caller as u32,
                notification: me.save.a0,
            };
            let enable = me.save.a1 != 0;
            match pre.task_irq_map.spec_get(owner) {
                Some(irqs) => {
                    &&& post.tasks@ == tasks
                    &&& post.machine == (crate::arch::Machine {
                        mie: spec_mask_irqs(pre.machine.mie, irqs, enable),
                        ..pre.machine
                    })
                    &&& hint == NextTask::Same
                },
                None => {
                    &&& post.tasks@ == spec_force_fault_tasks(
                        tasks,
                        caller,
                        FaultInfo::SyscallUsage(UsageError::NoIrq),
                    )
                    &&& post.machine == pre.machine
                    &&& hint == NextTask::Other
                },
            }
        }))
}

/// The interrupt-control syscall: the caller names notification bits of
/// its own and whether to unmask or mask the interrupt lines behind them.
/// The kernel resolves the lines through the reverse routing table; bits
/// that map to no line of the caller's are a usage fault.
pub fn sys_irq_control(k: &mut Kernel) -> (hint: NextTask)
    requires
        old(k).wf(),
        old(k).tasks@[old(k).current as int].is_runnable(),
    ensures
        spec_sys_irq_control(*old(k), *final(k), hint),
{
    let ghost len = old(k).tasks@.len() as int;
    let caller = k.current;
    let mask = k.tasks[caller].save.a0;
    let enable = k.tasks[caller].save.a1 != 0;
    let owner = crate::abi::InterruptOwner { task: caller as u32, notification: mask };

    let found = match crate::interrupts::get_task_irqs(&k.task_irq_map, owner) {
        Ok(irqs) => {
            let ghost irqs_view = irqs@;
            let mut lines: Vec<u32> = Vec::new();
            let mut i: usize = 0;
            while i < irqs.len()
                invariant
                    i <= irqs_view.len(),
                    irqs@ == irqs_view,
                    lines@.len() == i,
                    forall|j: int| 0 <= j < i ==> lines@[j] == (#[trigger] irqs_view[j]).0,
                decreases irqs_view.len() - i,
            {
                lines.push(irqs[i].0);
                i = i + 1;
            }
            let ghost mie0 = k.machine.mie;
            let mut i: usize = 0;
            while i < lines.len()
                invariant
                    i <= lines@.len(),
                    lines@.len() == irqs_view.len(),
                    forall|j: int| 0 <= j < lines@.len() ==> lines@[j] == (#[trigger] irqs_view[j]).0,
                    k.task_irq_map.spec_get(owner) == Some(irqs_view),
                    k.wf(),
                    k.machine.mie == spec_mask_irqs_upto(mie0, irqs_view, i as int, enable),
                    *k == (Kernel {
                        machine: crate::arch::Machine { mie: k.machine.mie, ..old(k).machine },
                        ..*old(k)
                    }),
                    mie0 == old(k).machine.mie,
                decreases lines@.len() - i,
            {
                let line = lines[i];
                proof {
                    assert(k.task_irq_map.spec_get(owner) matches Some(v) && v == irqs_view);
                    assert(forall|j: int|
                        0 <= j < irqs_view.len() ==> (#[trigger] irqs_view[j]).0 < 32);
                    assert(irqs_view[i as int].0 < 32);
                }
                if enable {
                    crate::arch::enable_irq(&mut k.machine, line);
                } else {
                    crate::arch::disable_irq(&mut k.machine, line);
                }
                i = i + 1;
            }
            true
        },
        Err(()) => false,
    };
    if !found {
        force_fault(&mut k.tasks, caller, FaultInfo::SyscallUsage(UsageError::NoIrq));
        proof {
            lemma_force_fault_wf(
                old(k).tasks@,
                caller as int,
                FaultInfo::SyscallUsage(UsageError::NoIrq),
                len,
                old(k).ram,
            );
        }
        return NextTask::Other;
    }
    NextTask::Same
}

/// Length cap on the kernel's copy of a panic message.
pub const PANIC_MESSAGE_CAP: u32 = 128;

/// The full transition contract of the panic syscall, relating the
/// kernel before the call, the kernel after it, and the scheduling hint.
pub open spec fn spec_sys_panic(pre: Kernel, post: Kernel, hint: NextTask) -> bool {
    &&& (post.profiling == pre.profiling)
    &&& (post.wf())
    &&& (post.machine == pre.machine)
    &&& (post.current == pre.current)
    &&& (post.stamp == pre.stamp)
    &&& (post.ram == pre.ram)
    &&& (post.irq_map == pre.irq_map)
    &&& (post.task_irq_map == pre.task_irq_map)
    &&& (post.tasks@.len() == pre.tasks@.len())
    &&& (post.tasks@ == spec_force_fault_tasks(
            pre.tasks@,
            pre.current as int,
            FaultInfo::Panic,
        ))
    &&& (!post.tasks@[pre.current as int].is_runnable())
    &&& (hint == NextTask::Other)
    &&& (({
            let me = pre.tasks@[pre.current as int];
            let m = spec_min_u32(me.save.a1, PANIC_MESSAGE_CAP);
            let msg = USlice { base: me.save.a0, len: m };
            if m > 0 && spec_can_access(me.region_table@, msg, REGION_READ) {
                post.panic_message@ == pre.ram.mem().subrange(
                    pre.ram.off(msg.base as int),
                    pre.ram.off(msg.base as int) + m,
                )
            } else {
                post.panic_message@.len() == 0
            }
        }))
}

/// The panic syscall: the caller names a message and is faulted with the
/// panic fault. Up to a bounded number of message bytes are copied into
/// the kernel's panic buffer for the supervisor to read; an unreadable
/// message leaves the buffer empty.
pub fn sys_panic(k: &mut Kernel) -> (hint: NextTask)
    requires
        old(k).wf(),
        old(k).tasks@[old(k).current as int].is_runnable(),
    ensures
        spec_sys_panic(*old(k), *final(k), hint),
{
    let ghost len = old(k).tasks@.len() as int;
    let caller = k.current;
    let m = if k.tasks[caller].save.a1 <= PANIC_MESSAGE_CAP {
        k.tasks[caller].save.a1
    } else {
        PANIC_MESSAGE_CAP
    };
    let msg = USlice { base: k.tasks[caller].save.a0, len: m };
    if can_access(&k.tasks[caller].region_table, msg, REGION_READ) {
        if m > 0 {
            proof {
                lemma_access_in_ram(
                    old(k).tasks@[caller as int].region_table@,
                    msg,
                    REGION_READ,
                    old(k).ram,
                );
                assert(k.ram.spec_contains(msg.base as int, m as int));
            }
            k.panic_message = k.ram.read_bytes(msg.base, m);
        } else {
            k.panic_message = Vec::new();
        }
    } else {
        k.panic_message = Vec::new();
    }

    force_fault(&mut k.tasks, caller, FaultInfo::Panic);
    proof {
        lemma_force_fault_wf(old(k).tasks@, caller as int, FaultInfo::Panic, len, old(k).ram);
    }
    NextTask::Other
}

/// The full transition contract of the syscall dispatcher: register `a7`
/// of the caller selects which syscall's transition relates the kernel
/// before and after, a number outside the defined set faults the caller,
/// and the dispatcher itself never moves time or the current task.
pub open spec fn spec_handle_syscall(pre: Kernel, post: Kernel, hint: NextTask) -> bool {
    let nr = pre.tasks@[pre.current as int].save.a7;
    &&& (post.profiling == pre.profiling)
    &&& post.wf()
    &&& post.current == pre.current
    &&& post.tasks@.len() == pre.tasks@.len()
    &&& post.machine.ticks == pre.machine.ticks
    &&& post.machine.mtime == pre.machine.mtime
    &&& post.machine.mtimecmp == pre.machine.mtimecmp
    &&& post.irq_map == pre.irq_map
    &&& post.task_irq_map == pre.task_irq_map
    &&& (hint == NextTask::Same ==> post.tasks@[pre.current as int].is_runnable())
    &&& (nr == 0 ==> spec_sys_send(pre, post, hint))
    &&& (nr == 1 ==> spec_sys_recv(pre, post, hint))
    &&& (nr == 2 ==> spec_sys_reply(pre, post, hint))
    &&& (nr == 3 ==> spec_sys_set_timer(pre, post, hint))
    &&& (nr == 4 ==> spec_sys_borrow_read(pre, post, hint))
    &&& (nr == 5 ==> spec_sys_borrow_write(pre, post, hint))
    &&& (nr == 6 ==> spec_sys_borrow_info(pre, post, hint))
    &&& (nr == 7 ==> spec_sys_irq_control(pre, post, hint))
    &&& (nr == 8 ==> spec_sys_panic(pre, post, hint))
    &&& (nr == 9 ==> spec_sys_get_timer(pre, post, hint))
    &&& (nr == 10 ==> spec_sys_refresh_task_id(pre, post, hint))
    &&& (nr == 11 ==> spec_sys_post(pre, post, hint))
    &&& (nr == 12 ==> spec_sys_reply_fault(pre, post, hint))
    &&& (nr > 12 ==> post.tasks@ == spec_force_fault_tasks(
        pre.tasks@,
        pre.current as int,
        FaultInfo::SyscallUsage(UsageError::BadSyscallNumber),
    ) && post.ram == pre.ram && post.stamp == pre.stamp && post.machine == pre.machine
        && post.panic_message == pre.panic_message && hint == NextTask::Other)
}

/// Dispatches the syscall named in the caller's register `a7` to its
/// handler. Numbers outside the defined set fault the caller. The kernel's
/// notion of time never moves here: only the timer interrupt advances it.
pub fn handle_syscall(k: &mut Kernel) -> (hint: NextTask)
    requires
        old(k).wf(),
        old(k).tasks@[old(k).current as int].is_runnable(),
        old(k).stamp < u64::MAX,
    ensures
        spec_handle_syscall(*old(k), *final(k), hint),
{
    let ghost len = old(k).tasks@.len() as int;
    let caller = k.current;
    let nr = k.tasks[caller].save.a7;
    match crate::abi::Sysnum::from_code(nr) {
        Some(crate::abi::Sysnum::Send) => sys_send(k),
        Some(crate::abi::Sysnum::Recv) => sys_recv(k),
        Some(crate::abi::Sysnum::Reply) => sys_reply(k),
        Some(crate::abi::Sysnum::SetTimer) => sys_set_timer(k),
        Some(crate::abi::Sysnum::BorrowRead) => sys_borrow_read(k),
        Some(crate::abi::Sysnum::BorrowWrite) => sys_borrow_write(k),
        Some(crate::abi::Sysnum::BorrowInfo) => sys_borrow_info(k),
        Some(crate::abi::Sysnum::IrqControl) => sys_irq_control(k),
        Some(crate::abi::Sysnum::Panic) => sys_panic(k),
        Some(crate::abi::Sysnum::GetTimer) => sys_get_timer(k),
        Some(crate::abi::Sysnum::RefreshTaskId) => sys_refresh_task_id(k),
        Some(crate::abi::Sysnum::Post) => sys_post(k),
        Some(crate::abi::Sysnum::ReplyFault) => sys_reply_fault(k),
        None => {
            force_fault(
                &mut k.tasks,
                caller,
                FaultInfo::SyscallUsage(UsageError::BadSyscallNumber),
            );
            proof {
                lemma_force_fault_wf(
                    old(k).tasks@,
                    caller as int,
                    FaultInfo::SyscallUsage(UsageError::BadSyscallNumber),
                    len,
                    old(k).ram,
                );
            }
            NextTask::Other
        },
    }
}

} // verus!
