//! Online profiling support.
//!
//! Each profiling event counts how often a kernel code path ran: syscall
//! entry and exit, interrupt service entry and exit, timer service, and
//! context switches. A board that wants profiling installs an events
//! table at startup; the kernel then bumps the matching counter at each
//! event, and a disabled table makes every event a no-op. Counters
//! saturate rather than wrap.

use vstd::prelude::*;

verus! {

/// Event counters the kernel bumps when profiling is enabled.
#[derive(Copy, Clone, Debug, PartialEq, Eq, Structural)]
pub struct EventsTable {
    /// Whether the table is installed; a disabled table counts nothing.
    pub enabled: bool,
    /// Entries to the syscall handler.
    pub syscall_enter: u64,
    /// Exits from the syscall handler.
    pub syscall_exit: u64,
    /// Entries to the secondary, platform-specific syscall path.
    pub secondary_syscall_enter: u64,
    /// Exits from the secondary syscall path.
    pub secondary_syscall_exit: u64,
    /// Entries to a peripheral interrupt service routine.
    pub isr_enter: u64,
    /// Exits from a peripheral interrupt service routine.
    pub isr_exit: u64,
    /// Entries to the timer interrupt service routine.
    pub timer_isr_enter: u64,
    /// Exits from the timer interrupt service routine.
    pub timer_isr_exit: u64,
    /// Context switches, counted at the moment the current task changes.
    pub context_switch: u64,
}

impl EventsTable {
    /// Builds a disabled table with every counter at zero.
    pub fn new() -> (t: EventsTable)
        ensures
            t == (EventsTable {
                enabled: false,
                syscall_enter: 0,
                syscall_exit: 0,
                secondary_syscall_enter: 0,
                secondary_syscall_exit: 0,
                isr_enter: 0,
                isr_exit: 0,
                timer_isr_enter: 0,
                timer_isr_exit: 0,
                context_switch: 0,
            }),
    {
        EventsTable {
            enabled: false,
            syscall_enter: 0,
            syscall_exit: 0,
            secondary_syscall_enter: 0,
            secondary_syscall_exit: 0,
            isr_enter: 0,
            isr_exit: 0,
            timer_isr_enter: 0,
            timer_isr_exit: 0,
            context_switch: 0,
        }
    }
}

/// A counter bumped by one, saturating at the top instead of wrapping.
pub open spec fn spec_bump(c: u64) -> u64 {
    if c == u64::MAX {
        c
    } else {
        (c + 1) as u64
    }
}

/// The table after the timer-service-entry event: its counter bumped
/// when profiling is enabled, untouched otherwise.
pub open spec fn spec_timer_isr_enter(t: EventsTable) -> EventsTable {
    if t.enabled {
        EventsTable { timer_isr_enter: spec_bump(t.timer_isr_enter), ..t }
    } else {
        t
    }
}

/// The table after the timer-service-exit event.
pub open spec fn spec_timer_isr_exit(t: EventsTable) -> EventsTable {
    if t.enabled {
        EventsTable { timer_isr_exit: spec_bump(t.timer_isr_exit), ..t }
    } else {
        t
    }
}

/// The table after a context-switch event.
pub open spec fn spec_context_switch(t: EventsTable) -> EventsTable {
    if t.enabled {
        EventsTable { context_switch: spec_bump(t.context_switch), ..t }
    } else {
        t
    }
}

/// Bumps a counter, saturating at the top.
fn bump(c: u64) -> (r: u64)
    ensures
        r == spec_bump(c),
{
    if c == u64::MAX {
        c
    } else {
        c + 1
    }
}

/// Installs the events table: from here on events are counted.
pub fn configure_events_table(t: &mut EventsTable)
    ensures
        *final(t) == (EventsTable { enabled: true, ..*old(t) }),
{
    t.enabled = true;
}

/// Counts an entry to the syscall handler for syscall number `nr`.
pub fn event_syscall_enter(t: &mut EventsTable, nr: u32)
    ensures
        *final(t) == if old(t).enabled {
            EventsTable { syscall_enter: spec_bump(old(t).syscall_enter), ..*old(t) }
        } else {
            *old(t)
        },
{
    let _ = nr;
    if t.enabled {
        t.syscall_enter = bump(t.syscall_enter);
    }
}

/// Counts an exit from the syscall handler.
pub fn event_syscall_exit(t: &mut EventsTable)
    ensures
        *final(t) == if old(t).enabled {
            EventsTable { syscall_exit: spec_bump(old(t).syscall_exit), ..*old(t) }
        } else {
            *old(t)
        },
{
    if t.enabled {
        t.syscall_exit = bump(t.syscall_exit);
    }
}

/// Counts an entry to the secondary syscall path.
pub fn event_secondary_syscall_enter(t: &mut EventsTable)
    ensures
        *final(t) == if old(t).enabled {
            EventsTable {
                secondary_syscall_enter: spec_bump(old(t).secondary_syscall_enter),
                ..*old(t)
            }
        } else {
            *old(t)
        },
{
    if t.enabled {
        t.secondary_syscall_enter = bump(t.secondary_syscall_enter);
    }
}

/// Counts an exit from the secondary syscall path.
pub fn event_secondary_syscall_exit(t: &mut EventsTable)
    ensures
        *final(t) == if old(t).enabled {
            EventsTable {
                secondary_syscall_exit: spec_bump(old(t).secondary_syscall_exit),
                ..*old(t)
            }
        } else {
            *old(t)
        },
{
    if t.enabled {
        t.secondary_syscall_exit = bump(t.secondary_syscall_exit);
    }
}

/// Counts an entry to a peripheral interrupt service routine.
pub fn event_isr_enter(t: &mut EventsTable)
    ensures
        *final(t) == if old(t).enabled {
            EventsTable { isr_enter: spec_bump(old(t).isr_enter), ..*old(t) }
        } else {
            *old(t)
        },
{
    if t.enabled {
        t.isr_enter = bump(t.isr_enter);
    }
}

/// Counts an exit from a peripheral interrupt service routine.
pub fn event_isr_exit(t: &mut EventsTable)
    ensures
        *final(t) == if old(t).enabled {
            EventsTable { isr_exit: spec_bump(old(t).isr_exit), ..*old(t) }
        } else {
            *old(t)
        },
{
    if t.enabled {
        t.isr_exit = bump(t.isr_exit);
    }
}

/// Counts an entry to the timer interrupt service routine.
pub fn event_timer_isr_enter(t: &mut EventsTable)
    ensures
        *final(t) == spec_timer_isr_enter(*old(t)),
{
    if t.enabled {
        t.timer_isr_enter = bump(t.timer_isr_enter);
    }
}

/// Counts an exit from the timer interrupt service routine.
pub fn event_timer_isr_exit(t: &mut EventsTable)
    ensures
        *final(t) == spec_timer_isr_exit(*old(t)),
{
    if t.enabled {
        t.timer_isr_exit = bump(t.timer_isr_exit);
    }
}

/// Counts a context switch; `tcb` identifies the task switched to.
pub fn event_context_switch(t: &mut EventsTable, tcb: usize)
    ensures
        *final(t) == spec_context_switch(*old(t)),
{
    let _ = tcb;
    if t.enabled {
        t.context_switch = bump(t.context_switch);
    }
}

} // verus!
