//! The per-task control block and the task state machine: scheduling
//! states, notification posting, timer processing, priority selection, and
//! fault forcing.

use vstd::prelude::*;
use crate::abi::{FaultInfo, TaskDesc, TaskId, RegionDesc, KERNEL_TASK_ID, GENERATION_MASK};
use crate::saved_state::SavedState;

verus! {

/// Notification bit posted to the supervisor when some task faults.
pub const FAULT_NOTIFICATION: u32 = 1;

/// The scheduling state of a healthy task.
#[derive(Copy, Clone, Debug, PartialEq, Eq)]
pub enum SchedState {
    /// Not eligible for the CPU.
    Stopped,
    /// Eligible for the CPU.
    Runnable,
    /// Blocked transmitting to the named peer; the flag records whether the
    /// rendezvous was reserved by a closed receive.
    InSendTo(TaskId, bool),
    /// Message sent; waiting for the peer's reply.
    InReplyTo(TaskId),
    /// Blocked awaiting a message, from anyone (`None`) or from one
    /// specific sender.
    InRecv(Option<TaskId>),
}

/// The health state of a task.
#[derive(Copy, Clone, Debug, PartialEq, Eq)]
pub enum TaskState {
    /// Operating normally, in the given scheduling state.
    Healthy(SchedState),
    /// Stopped by a fault; `original_state` is the scheduling state the
    /// fault interrupted.
    Faulted {
        /// What went wrong.
        fault: FaultInfo,
        /// The scheduling state at the moment of the fault.
        original_state: SchedState,
    },
}

/// A task's timer: an optional deadline in ticks, and the notification bits
/// posted when it passes.
#[derive(Copy, Clone, Debug, PartialEq, Eq)]
pub struct TaskTimer {
    /// When to fire, in kernel ticks; `None` leaves the timer disarmed.
    pub deadline: Option<u64>,
    /// Notification bits posted into the owner when the deadline passes.
    pub to_post: u32,
}

/// Scheduling hint handed back by operations that may unblock tasks.
#[derive(Copy, Clone, Debug, PartialEq, Eq, Structural)]
pub enum NextTask {
    /// The current task may keep the CPU.
    Same,
    /// Some other task may need the CPU; run the scheduler.
    Other,
    /// This specific task should run next.
    Specific(usize),
}

impl NextTask {
    /// Merges two hints, keeping the stronger demand: two competing
    /// specific requests degrade to `Other`.
    pub fn combine(self, other: NextTask) -> (r: NextTask)
        ensures
            r == spec_combine(self, other),
    {
        match (self, other) {
            (NextTask::Specific(_), NextTask::Specific(_)) => NextTask::Other,
            (NextTask::Specific(i), _) => NextTask::Specific(i),
            (_, NextTask::Specific(i)) => NextTask::Specific(i),
            (NextTask::Other, _) => NextTask::Other,
            (_, NextTask::Other) => NextTask::Other,
            (NextTask::Same, NextTask::Same) => NextTask::Same,
        }
    }
}

/// The merge rule for scheduling hints.
pub open spec fn spec_combine(a: NextTask, b: NextTask) -> NextTask {
    match (a, b) {
        (NextTask::Specific(_), NextTask::Specific(_)) => NextTask::Other,
        (NextTask::Specific(i), _) => NextTask::Specific(i),
        (_, NextTask::Specific(i)) => NextTask::Specific(i),
        (NextTask::Other, _) => NextTask::Other,
        (_, NextTask::Other) => NextTask::Other,
        (NextTask::Same, NextTask::Same) => NextTask::Same,
    }
}

/// A task control block.
pub struct Task {
    /// The task's saved registers; the syscall interface reads arguments
    /// from and writes results into this record.
    pub save: SavedState,
    /// The static descriptor the task was created from.
    pub descriptor: TaskDesc,
    /// Health and scheduling state.
    pub state: TaskState,
    /// The task's timer.
    pub timer: TaskTimer,
    /// Undelivered notification bits.
    pub notifications_posted: u32,
    /// Which notification bits the task currently cares about; set by
    /// receive.
    pub notifications_enabled: u32,
    /// Six-bit restart counter, part of the task's outward identifier.
    pub generation: u8,
    /// The memory regions the owning task may touch.
    pub region_table: Vec<RegionDesc>,
    /// Order stamp for the send queue: smaller stamps were enqueued
    /// earlier.
    pub queue_stamp: u64,
}

impl Task {
    /// The task's scheduling priority; zero is most urgent.
    pub open spec fn priority(self) -> u8 {
        self.descriptor.priority
    }

    /// Whether the task is healthy and eligible for the CPU.
    pub open spec fn is_runnable(self) -> bool {
        self.state == TaskState::Healthy(SchedState::Runnable)
    }

    /// Whether the task has been stopped by a fault.
    pub open spec fn is_faulted(self) -> bool {
        self.state matches TaskState::Faulted { .. }
    }

    /// Whether the task is healthy and blocked in an open or matching
    /// receive.
    pub open spec fn is_in_recv(self) -> bool {
        self.state matches TaskState::Healthy(SchedState::InRecv(_))
    }

    /// The task's current outward identifier.
    pub open spec fn spec_current_id(self) -> TaskId {
        TaskId((self.descriptor.index & 0x3ff) | ((self.generation as u16) << 10))
    }

    /// Builds the task's current outward identifier.
    pub fn current_id(&self) -> (tid: TaskId)
        requires
            self.descriptor.index <= 0x3ff,
            self.generation <= GENERATION_MASK,
        ensures
            tid == self.spec_current_id(),
            tid.spec_index() == self.descriptor.index,
            tid.spec_generation() == self.generation,
    {
        let tid = TaskId(
            (self.descriptor.index & 0x3ff) | ((self.generation as u16) << 10),
        );
        proof {
            let i = self.descriptor.index;
            let g = self.generation;
            assert({
                let p = (i & 0x3ff) | ((g as u16) << 10);
                i <= 0x3ff && g <= 0x3f ==> (p & 0x3ff) == i
                    && (((p >> 10) as u8) & 0x3f) == g
            }) by (bit_vector);
        }
        tid
    }
}

/// The register file after a kernel notification message: result registers
/// report success, the kernel as sender, the firing bits as operation, and
/// an empty body with no leases.
pub open spec fn notification_message(firing: u32, save: SavedState) -> SavedState {
    SavedState {
        a0: 0,
        a1: KERNEL_TASK_ID as u32,
        a2: firing,
        a3: 0,
        a4: 0,
        a5: 0,
        ..save
    }
}

/// The task after notification bits `bits` are posted to it, and whether
/// the post woke it. Bits land in `notifications_posted`; a task blocked in
/// receive whose enabled mask overlaps the posted set is handed a kernel
/// notification message, has the delivered bits cleared, and becomes
/// runnable.
pub open spec fn spec_post(t: Task, bits: u32) -> (Task, bool) {
    let posted = t.notifications_posted | bits;
    if t.is_in_recv() && posted & t.notifications_enabled != 0 {
        let firing = posted & t.notifications_enabled;
        (
            Task {
                notifications_posted: posted & !t.notifications_enabled,
                state: TaskState::Healthy(SchedState::Runnable),
                save: notification_message(firing, t.save),
                ..t
            },
            true,
        )
    } else {
        (Task { notifications_posted: posted, ..t }, false)
    }
}

impl Task {
    /// Posts notification bits to the task, waking it if it is blocked in
    /// a receive whose enabled mask overlaps them. Returns whether the task
    /// became runnable, as a rescheduling hint.
    pub fn post(&mut self, bits: u32) -> (woke: bool)
        ensures
            *final(self) == spec_post(*old(self), bits).0,
            woke == spec_post(*old(self), bits).1,
    {
        let posted = self.notifications_posted | bits;
        let in_recv = match self.state {
            TaskState::Healthy(SchedState::InRecv(_)) => true,
            _ => false,
        };
        if in_recv && posted & self.notifications_enabled != 0 {
            let firing = posted & self.notifications_enabled;
            self.notifications_posted = posted & !self.notifications_enabled;
            self.state = TaskState::Healthy(SchedState::Runnable);
            self.save.a0 = 0;
            self.save.a1 = KERNEL_TASK_ID as u32;
            self.save.a2 = firing;
            self.save.a3 = 0;
            self.save.a4 = 0;
            self.save.a5 = 0;
            true
        } else {
            self.notifications_posted = posted;
            false
        }
    }
}

/// Whether `n` is the task `select` must pick: runnable, sharing the
/// smallest priority value among runnable tasks, and of lowest index among
/// those.
pub open spec fn is_select_choice(tasks: Seq<Task>, n: int) -> bool {
    &&& 0 <= n < tasks.len()
    &&& tasks[n].is_runnable()
    &&& forall|j: int|
        0 <= j < tasks.len() && tasks[j].is_runnable()
            ==> tasks[n].priority() <= tasks[j].priority()
    &&& forall|j: int|
        0 <= j < n
            ==> !(tasks[j].is_runnable() && tasks[j].priority() == tasks[n].priority())
}

/// Picks the next task to run: the lowest-index runnable task among those
/// sharing the minimum priority value. Returns `None` when nothing is
/// runnable, in which case the kernel waits for an interrupt. The previous
/// task's index takes no part in the policy.
pub fn select(current: usize, tasks: &Vec<Task>) -> (next: Option<usize>)
    ensures
        match next {
            Some(n) => is_select_choice(tasks@, n as int),
            None => forall|j: int| 0 <= j < tasks@.len() ==> !tasks@[j].is_runnable(),
        },
{
    let _ = current;
    let mut best: Option<usize> = None;
    let mut i: usize = 0;
    while i < tasks.len()
        invariant
            i <= tasks@.len(),
            match best {
                Some(b) => {
                    &&& 0 <= (b as int) < i
                    &&& tasks@[b as int].is_runnable()
                    &&& forall|j: int|
                        0 <= j < i && tasks@[j].is_runnable()
                            ==> tasks@[b as int].priority() <= tasks@[j].priority()
                    &&& forall|j: int|
                        0 <= j < b
                            ==> !(tasks@[j].is_runnable() && tasks@[j].priority()
                                == tasks@[b as int].priority())
                },
                None => forall|j: int| 0 <= j < i ==> !tasks@[j].is_runnable(),
            },
        decreases tasks@.len() - i,
    {
        let runnable = match tasks[i].state {
            TaskState::Healthy(SchedState::Runnable) => true,
            _ => false,
        };
        if runnable {
            match best {
                Some(b) => {
                    if tasks[i].descriptor.priority < tasks[b].descriptor.priority {
                        best = Some(i);
                    }
                },
                None => {
                    best = Some(i);
                },
            }
        }
        i = i + 1;
    }
    best
}

/// Whether the task at `cur` must give the CPU up: it is no longer
/// runnable, or some runnable task carries a strictly smaller priority
/// value. Equals stay cooperative: they never preempt each other.
pub open spec fn spec_preempts(tasks: Seq<Task>, cur: int) -> bool {
    ||| !tasks[cur].is_runnable()
    ||| exists|j: int|
        0 <= j < tasks.len() && (#[trigger] tasks[j]).is_runnable() && tasks[j].priority()
            < tasks[cur].priority()
}

/// The scheduling rule after tasks may have woken: the task at `cur`
/// keeps the CPU unless it must give it up, in which case the scheduler's
/// choice takes over — or nothing is runnable and `cur` stands.
pub open spec fn spec_kept_or_selected(tasks: Seq<Task>, cur: int, new_cur: int) -> bool {
    if spec_preempts(tasks, cur) {
        ||| is_select_choice(tasks, new_cur)
        ||| (new_cur == cur && forall|j: int|
            0 <= j < tasks.len() ==> !(#[trigger] tasks[j]).is_runnable())
    } else {
        new_cur == cur
    }
}

/// The task after its timer fires at `now`, together with the wake flag:
/// the timer's bits are posted and the deadline is cleared.
pub open spec fn spec_fire_timer(t: Task) -> (Task, bool) {
    let cleared = Task { timer: TaskTimer { deadline: None, to_post: t.timer.to_post }, ..t };
    spec_post(cleared, t.timer.to_post)
}

/// Whether the task's timer is armed with a deadline at or before `now`.
pub open spec fn timer_fires(t: Task, now: u64) -> bool {
    t.timer.deadline matches Some(d) && d <= now
}

/// Walks the task table at tick `now`: every task whose timer deadline has
/// arrived has its notification bits posted and its timer disarmed. Returns
/// `Other` when any task woke.
pub fn process_timers(tasks: &mut Vec<Task>, now: u64) -> (hint: NextTask)
    ensures
        final(tasks)@.len() == old(tasks)@.len(),
        forall|i: int|
            0 <= i < old(tasks)@.len() && timer_fires(old(tasks)@[i], now)
                ==> final(tasks)@[i] == spec_fire_timer(old(tasks)@[i]).0,
        forall|i: int|
            0 <= i < old(tasks)@.len() && !timer_fires(old(tasks)@[i], now)
                ==> final(tasks)@[i] == old(tasks)@[i],
        hint == NextTask::Same || hint == NextTask::Other,
        hint == NextTask::Same
            ==> forall|i: int|
                0 <= i < old(tasks)@.len() && timer_fires(old(tasks)@[i], now)
                    ==> !spec_fire_timer(old(tasks)@[i]).1,
        hint == NextTask::Other
            ==> exists|i: int|
                0 <= i < old(tasks)@.len() && timer_fires(#[trigger] old(tasks)@[i], now)
                    && spec_fire_timer(old(tasks)@[i]).1,
{
    let mut hint = NextTask::Same;
    let mut i: usize = 0;
    while i < tasks.len()
        invariant
            i <= tasks@.len(),
            tasks@.len() == old(tasks)@.len(),
            forall|j: int|
                0 <= j < i && timer_fires(old(tasks)@[j], now)
                    ==> tasks@[j] == spec_fire_timer(old(tasks)@[j]).0,
            forall|j: int|
                0 <= j < i && !timer_fires(old(tasks)@[j], now)
                    ==> tasks@[j] == old(tasks)@[j],
            forall|j: int| i <= j < tasks@.len() ==> tasks@[j] == old(tasks)@[j],
            hint == NextTask::Same || hint == NextTask::Other,
            hint == NextTask::Same
                ==> forall|j: int|
                    0 <= j < i && timer_fires(old(tasks)@[j], now)
                        ==> !spec_fire_timer(old(tasks)@[j]).1,
            hint == NextTask::Other
                ==> exists|j: int|
                    0 <= j < i && timer_fires(#[trigger] old(tasks)@[j], now)
                        && spec_fire_timer(old(tasks)@[j]).1,
        decreases tasks@.len() - i,
    {
        let fires = match tasks[i].timer.deadline {
            Some(d) => d <= now,
            None => false,
        };
        if fires {
            let bits = tasks[i].timer.to_post;
            tasks[i].timer.deadline = None;
            let woke = tasks[i].post(bits);
            if woke {
                hint = NextTask::Other;
            }
        }
        i = i + 1;
    }
    hint
}

/// The fault record a task carries after `force_fault`: the new fault, over
/// the scheduling state the fault interrupted. A second fault keeps the
/// originally interrupted state.
pub open spec fn spec_faulted_state(prior: TaskState, fault: FaultInfo) -> TaskState {
    match prior {
        TaskState::Healthy(sched) => TaskState::Faulted { fault, original_state: sched },
        TaskState::Faulted { original_state, .. } => TaskState::Faulted {
            fault,
            original_state,
        },
    }
}

/// The task table after task `index` is forced into the faulted state:
/// its block records the fault over the interrupted scheduling state, and
/// the supervisor, task zero, has the fault notification posted.
pub open spec fn spec_force_fault_tasks(tasks: Seq<Task>, index: int, fault: FaultInfo) -> Seq<
    Task,
> {
    let faulted = Task { state: spec_faulted_state(tasks[index].state, fault), ..tasks[index] };
    let mid = tasks.update(index, faulted);
    mid.update(0, spec_post(mid[0], FAULT_NOTIFICATION).0)
}

/// Moves task `index` into the faulted state, recording `fault`, and posts
/// the fault notification to the supervisor, task zero. A faulted task is
/// never runnable and appears in no send queue, so the scheduler must be
/// rerun.
pub fn force_fault(tasks: &mut Vec<Task>, index: usize, fault: FaultInfo) -> (hint: NextTask)
    requires
        old(tasks)@.len() > 0,
        index < old(tasks)@.len(),
    ensures
        final(tasks)@ == spec_force_fault_tasks(old(tasks)@, index as int, fault),
        final(tasks)@.len() == old(tasks)@.len(),
        final(tasks)@[index as int].state
            == spec_faulted_state(old(tasks)@[index as int].state, fault),
        !final(tasks)@[index as int].is_runnable(),
        hint == NextTask::Other,
{
    let prior = tasks[index].state;
    tasks[index].state = match prior {
        TaskState::Healthy(sched) => TaskState::Faulted { fault, original_state: sched },
        TaskState::Faulted { original_state, .. } => TaskState::Faulted {
            fault,
            original_state,
        },
    };
    tasks[0].post(FAULT_NOTIFICATION);
    NextTask::Other
}

} // verus!
