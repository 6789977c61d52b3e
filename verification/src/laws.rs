//! The kernel's stated laws, proved once and for all: stack alignment of
//! blocked tasks, exhaustiveness of the task state machine, what the
//! scheduler may and may not return, monotonicity of the timer, and the
//! neutrality of an empty notification post.

use vstd::prelude::*;
use crate::ipc::timer_return;
use crate::kernel::{task_wf, Kernel};
use crate::saved_state::SavedState;
use crate::task::{is_select_choice, spec_post, SchedState, Task, TaskState, TaskTimer};

verus! {

/// A task that is not runnable holds a 16-byte-aligned stack pointer: the
/// saved stack pointer only ever comes from the descriptor's aligned
/// stack top or from a trap frame, whose calling convention keeps it
/// aligned.
pub proof fn lemma_blocked_sp_aligned(k: Kernel, i: int)
    requires
        k.wf(),
        0 <= i < k.tasks@.len(),
        !k.tasks@[i].is_runnable(),
    ensures
        k.tasks@[i].save.sp % 16 == 0,
{
    assert(task_wf(k.tasks@[i], i, k.tasks@.len() as int, k.ram));
}

/// At any instant a task's state sits in exactly one variant: it is
/// healthy or faulted, never both, and a healthy task's scheduling state
/// is exactly one of stopped, runnable, sending, awaiting reply, or
/// receiving.
pub proof fn lemma_state_exhaustive(s: TaskState)
    ensures
        (s matches TaskState::Healthy(_)) != (s matches TaskState::Faulted { .. }),
        s matches TaskState::Healthy(sched) ==> {
            let a = sched is Stopped;
            let b = sched is Runnable;
            let c = sched is InSendTo;
            let d = sched is InReplyTo;
            let e = sched is InRecv;
            (if a {
                1int
            } else {
                0int
            }) + (if b {
                1int
            } else {
                0int
            }) + (if c {
                1int
            } else {
                0int
            }) + (if d {
                1int
            } else {
                0int
            }) + (if e {
                1int
            } else {
                0int
            }) == 1
        },
{
}

/// A faulted task is never the scheduler's choice: whatever `select`
/// returns is runnable, and a faulted task is not.
pub proof fn lemma_faulted_never_selected(tasks: Seq<Task>, i: int, n: int)
    requires
        0 <= i < tasks.len(),
        tasks[i].is_faulted(),
        is_select_choice(tasks, n),
    ensures
        n != i,
{
    assert(tasks[n].is_runnable());
}

/// The scheduler's choice is the lowest-index runnable task among those
/// sharing the minimum priority value: every runnable task has an equal
/// or larger priority value, and every runnable task of equal priority
/// has an equal or larger index.
pub proof fn lemma_select_choice_minimal(tasks: Seq<Task>, n: int)
    requires
        is_select_choice(tasks, n),
    ensures
        tasks[n].is_runnable(),
        forall|j: int|
            0 <= j < tasks.len() && (#[trigger] tasks[j]).is_runnable()
                ==> tasks[n].priority() <= tasks[j].priority(),
        forall|j: int|
            0 <= j < tasks.len() && (#[trigger] tasks[j]).is_runnable() && tasks[j].priority()
                == tasks[n].priority() ==> n <= j,
{
    assert forall|j: int|
        0 <= j < tasks.len() && (#[trigger] tasks[j]).is_runnable() && tasks[j].priority()
            == tasks[n].priority() implies n <= j by {
        if j < n {
            assert(!(tasks[j].is_runnable() && tasks[j].priority() == tasks[n].priority()));
        }
    }
}

/// The tick count a get-timer result reports, reassembled from its two
/// register halves.
pub open spec fn spec_reported_now(save: SavedState) -> u64 {
    (save.a0 as u64) | ((save.a1 as u64) << 32)
}

/// The deadline a get-timer result reports: none when the armed flag is
/// clear, otherwise the value reassembled from its two register halves.
pub open spec fn spec_reported_deadline(save: SavedState) -> Option<u64> {
    if save.a2 != 0 {
        Some((save.a3 as u64) | ((save.a4 as u64) << 32))
    } else {
        None
    }
}

/// The get-timer result reports the tick count exactly: splitting the
/// count into register halves and reassembling them loses nothing.
pub proof fn lemma_timer_return_now_exact(save: SavedState, now: u64, timer: TaskTimer)
    ensures
        spec_reported_now(timer_return(save, now, timer)) == now,
{
    let lo = now as u32;
    let hi = (now >> 32) as u32;
    assert(((lo as u64) | ((hi as u64) << 32)) == now) by (bit_vector)
        requires
            lo == now as u32 && hi == (now >> 32) as u32,
    ;
}

/// Two get-timer results taken as the kernel's tick count advances never
/// report a decrease: the reported count equals the tick count, which
/// every kernel operation leaves equal or larger.
pub proof fn lemma_get_timer_monotonic(earlier: Kernel, later: Kernel, t: TaskTimer)
    requires
        later.spec_now() >= earlier.spec_now(),
    ensures
        forall|s1: SavedState, s2: SavedState|
            spec_reported_now(#[trigger] timer_return(s1, earlier.spec_now(), t))
                <= spec_reported_now(#[trigger] timer_return(s2, later.spec_now(), t)),
{
    assert forall|s1: SavedState, s2: SavedState|
        spec_reported_now(#[trigger] timer_return(s1, earlier.spec_now(), t))
            <= spec_reported_now(#[trigger] timer_return(s2, later.spec_now(), t)) by {
        lemma_timer_return_now_exact(s1, earlier.spec_now(), t);
        lemma_timer_return_now_exact(s2, later.spec_now(), t);
    }
}

/// Arming the timer with a future deadline and reading it straight back
/// returns the deadline and notification bits verbatim; a deadline at or
/// before the current tick is never stored, its bits being posted at
/// once instead.
pub proof fn lemma_set_then_get_timer(save: SavedState, now: u64, deadline: u64, bits: u32)
    ensures
        spec_reported_deadline(
            timer_return(save, now, TaskTimer { deadline: Some(deadline), to_post: bits }),
        ) == Some(deadline),
        timer_return(save, now, TaskTimer { deadline: Some(deadline), to_post: bits }).a5
            == bits,
{
    let lo = deadline as u32;
    let hi = (deadline >> 32) as u32;
    assert(((lo as u64) | ((hi as u64) << 32)) == deadline) by (bit_vector)
        requires
            lo == deadline as u32 && hi == (deadline >> 32) as u32,
    ;
}

/// Disarming the timer and reading it straight back reports no deadline.
pub proof fn lemma_clear_then_get_timer(save: SavedState, now: u64, bits: u32)
    ensures
        spec_reported_deadline(
            timer_return(save, now, TaskTimer { deadline: None, to_post: bits }),
        ) is None,
{
}

/// Posting an empty notification set is a no-op: the task is unchanged,
/// nothing wakes, and so no receive can ever observe it.
pub proof fn lemma_post_zero_no_op(t: Task)
    requires
        t.is_in_recv() ==> t.notifications_posted & t.notifications_enabled == 0,
    ensures
        spec_post(t, 0) == (t, false),
{
    let p = t.notifications_posted;
    let e = t.notifications_enabled;
    assert(p | 0 == p) by (bit_vector);
    if t.is_in_recv() {
        assert(spec_post(t, 0).0 =~= t);
    } else {
        assert(spec_post(t, 0).0 =~= t);
    }
}

/// Whenever the scheduling rule actually moves the CPU, the task it moves
/// to is the scheduler's optimal choice: lowest index among the runnable
/// tasks of minimum priority value. The CPU only ever moves because the
/// previous task stopped being runnable or a strictly more urgent task
/// became runnable; equals never displace each other.
pub proof fn lemma_switch_is_optimal(tasks: Seq<Task>, cur: int, new_cur: int)
    requires
        crate::task::spec_kept_or_selected(tasks, cur, new_cur),
        new_cur != cur,
    ensures
        is_select_choice(tasks, new_cur),
        crate::task::spec_preempts(tasks, cur),
{
}

/// At any moment exactly one identifier per table index is current: a
/// task's outward identifier names its own index, and its generation is
/// the block's one generation field.
pub proof fn lemma_current_id_unique(k: Kernel, i: int)
    requires
        k.wf(),
        0 <= i < k.tasks@.len(),
    ensures
        k.tasks@[i].spec_current_id().spec_index() == i,
        k.tasks@[i].spec_current_id().spec_generation() == k.tasks@[i].generation,
{
    assert(task_wf(k.tasks@[i], i, k.tasks@.len() as int, k.ram));
    let idx = k.tasks@[i].descriptor.index;
    let g = k.tasks@[i].generation;
    assert({
        let p = (idx & 0x3ff) | ((g as u16) << 10);
        idx <= 0x3ff && g <= 0x3f ==> (p & 0x3ff) == idx && (((p >> 10) as u8) & 0x3f) == g
    }) by (bit_vector);
}

/// A blocked sender sits in exactly one send queue: queue membership is
/// decided by the single peer identifier its state stores.
pub proof fn lemma_send_queue_unique(t: Task, a: crate::abi::TaskId, b: crate::abi::TaskId)
    requires
        crate::ipc::is_queued(t, a),
        crate::ipc::is_queued(t, b),
    ensures
        a == b,
{
}

/// A full round trip delivers both bodies exactly, each clamped to the
/// smaller of its two buffer lengths: after the rendezvous the receiver's
/// buffer head holds the sender's outgoing bytes byte for byte; after the
/// reply the sender's reply buffer head holds the replier's bytes byte
/// for byte; and where the reply does not land on it, the received
/// request still reads back exactly.
pub proof fn lemma_round_trip_exact(
    r0: crate::umem::UserRam,
    r1: crate::umem::UserRam,
    r2: crate::umem::UserRam,
    out: crate::umem::USlice,
    buf: crate::umem::USlice,
    msg: crate::umem::USlice,
    inc: crate::umem::USlice,
)
    requires
        crate::ipc::deliver_ram(r0, r1, out, buf),
        crate::ipc::deliver_ram(r1, r2, msg, inc),
    ensures
        forall|i: int|
            0 <= i < crate::ipc::spec_min_u32(out.len, buf.len)
                ==> #[trigger] r1.mem()[r0.off(buf.base + i)]
                    == r0.mem()[r0.off(out.base + i)],
        forall|j: int|
            0 <= j < crate::ipc::spec_min_u32(msg.len, inc.len)
                ==> #[trigger] r2.mem()[r0.off(inc.base + j)]
                    == r1.mem()[r0.off(msg.base + j)],
        forall|i: int|
            0 <= i < crate::ipc::spec_min_u32(out.len, buf.len) && !(r0.off(inc.base as int)
                <= r0.off(buf.base + i) < r0.off(inc.base as int) + crate::ipc::spec_min_u32(
                msg.len,
                inc.len,
            )) && 0 <= r0.off(buf.base + i) < r0.mem().len()
                ==> #[trigger] r2.mem()[r0.off(buf.base + i)]
                    == r0.mem()[r0.off(out.base + i)],
{
    assert forall|j: int|
        0 <= j < crate::ipc::spec_min_u32(msg.len, inc.len) implies #[trigger] r2.mem()[r0.off(
        inc.base + j,
    )] == r1.mem()[r0.off(msg.base + j)] by {
        assert(r2.mem()[r1.off(inc.base + j)] == r1.mem()[r1.off(msg.base + j)]);
    }
    assert forall|i: int|
        0 <= i < crate::ipc::spec_min_u32(out.len, buf.len) && !(r0.off(inc.base as int)
            <= r0.off(buf.base + i) < r0.off(inc.base as int) + crate::ipc::spec_min_u32(
            msg.len,
            inc.len,
        )) && 0 <= r0.off(buf.base + i) < r0.mem().len() implies #[trigger] r2.mem()[r0.off(
        buf.base + i,
    )] == r0.mem()[r0.off(out.base + i)] by {
        assert(r2.mem()[r0.off(buf.base + i)] == r1.mem()[r0.off(buf.base + i)]);
    }
}

/// A sender comes to wait for a reply only through a matching receiver:
/// the send path puts the caller into the awaiting-reply state exactly
/// when the target sat in a receive that accepts it, which `sys_send`'s
/// contract states; here, delivery from the target's point of view.
pub proof fn lemma_reply_state_implies_recv(tasks: Seq<Task>, src: int, dst: int)
    requires
        0 <= src < tasks.len(),
        0 <= dst < tasks.len(),
        src != dst,
        crate::ipc::recv_accepts(tasks[dst], tasks[src].spec_current_id()),
    ensures
        crate::ipc::spec_deliver_tasks(tasks, src, dst)[src].state matches TaskState::Healthy(
            SchedState::InReplyTo(p),
        ) && p == tasks[dst].spec_current_id(),
        tasks[dst].state matches TaskState::Healthy(SchedState::InRecv(_)),
{
}

} // verus!
