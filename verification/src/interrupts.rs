//! Interrupt routing tables.
//!
//! At build time every hardware interrupt is mapped to exactly one owning
//! task and notification set, and a reverse table maps each owner back to
//! its interrupt numbers. Both tables are laid out for collision-free
//! constant-time lookup: an entry for key `k` may sit only in slot
//! `hash(k) mod m`, so one probe decides membership. The kernel only ever
//! reads them.

use vstd::prelude::*;
use crate::abi::{InterruptNum, InterruptOwner};

verus! {

/// The table mapping each hardware interrupt to its owning task and
/// notification bits.
pub struct IrqOwnerTable {
    /// The slots; an entry for interrupt `n` may sit only in slot
    /// `n mod len`.
    pub slots: Vec<Option<(InterruptNum, InterruptOwner)>>,
}

impl IrqOwnerTable {
    /// Every occupied slot holds a key that hashes to it, so a single
    /// probe decides membership.
    pub open spec fn wf(self) -> bool {
        forall|i: int|
            0 <= i < self.slots@.len()
                ==> match #[trigger] self.slots@[i] {
                    Some((k, _)) => k.0 as int % self.slots@.len() as int == i,
                    None => true,
                }
    }

    /// The owner recorded for interrupt `irq`, if any.
    pub open spec fn spec_get(self, irq: u32) -> Option<InterruptOwner> {
        if self.slots@.len() == 0 {
            None
        } else {
            match self.slots@[irq as int % self.slots@.len() as int] {
                Some((k, v)) => if k.0 == irq {
                    Some(v)
                } else {
                    None
                },
                None => None,
            }
        }
    }

    /// Looks up the owner of interrupt `irq`.
    pub fn get(&self, irq: InterruptNum) -> (r: Option<InterruptOwner>)
        ensures
            r == self.spec_get(irq.0),
    {
        if self.slots.len() == 0 {
            return None;
        }
        let slot = (irq.0 as usize) % self.slots.len();
        match self.slots[slot] {
            Some((k, v)) => if k.0 == irq.0 {
                Some(v)
            } else {
                None
            },
            None => None,
        }
    }

    /// Whether interrupt `irq` is routed at all.
    pub fn contains(&self, irq: InterruptNum) -> (r: bool)
        ensures
            r == (self.spec_get(irq.0) matches Some(_)),
    {
        match self.get(irq) {
            Some(_) => true,
            None => false,
        }
    }

    /// Replaces the owner recorded for interrupt `irq`; fails when the
    /// interrupt is not routed.
    pub fn set(&mut self, irq: InterruptNum, owner: InterruptOwner) -> (r: Result<(), ()>)
        requires
            old(self).wf(),
        ensures
            final(self).wf(),
            final(self).slots@.len() == old(self).slots@.len(),
            match r {
                Ok(()) => {
                    &&& old(self).spec_get(irq.0) matches Some(_)
                    &&& final(self).spec_get(irq.0) == Some(owner)
                    &&& forall|n: u32|
                        n != irq.0
                            ==> #[trigger] final(self).spec_get(n) == old(self).spec_get(n)
                },
                Err(()) => {
                    &&& old(self).spec_get(irq.0) is None
                    &&& *final(self) == *old(self)
                },
            },
    {
        if self.slots.len() == 0 {
            return Err(());
        }
        let slot = (irq.0 as usize) % self.slots.len();
        let hit = match self.slots[slot] {
            Some((k, _)) => k.0 == irq.0,
            None => false,
        };
        if hit {
            self.slots[slot] = Some((irq, owner));
            proof {
                assert forall|n: u32| n != irq.0 implies #[trigger] final(self).spec_get(n)
                    == old(self).spec_get(n) by {
                    if n as int % self.slots@.len() as int != slot as int {
                        assert(final(self).slots@[n as int % self.slots@.len() as int]
                            == old(self).slots@[n as int % self.slots@.len() as int]);
                    }
                }
            }
            Ok(())
        } else {
            Err(())
        }
    }

    /// Builds a table of `m` slots from routing pairs. Fails when two pairs
    /// collide in a slot or repeat an interrupt; the offline tool picks `m`
    /// so that they never do.
    pub fn build(m: usize, pairs: &Vec<(InterruptNum, InterruptOwner)>) -> (r: Result<
        IrqOwnerTable,
        (),
    >)
        requires
            m > 0,
        ensures
            match r {
                Ok(t) => {
                    &&& t.wf()
                    &&& t.slots@.len() == m
                    &&& forall|j: int|
                        0 <= j < pairs@.len()
                            ==> t.spec_get((#[trigger] pairs@[j]).0.0) == Some(pairs@[j].1)
                },
                Err(()) => true,
            },
    {
        let mut slots: Vec<Option<(InterruptNum, InterruptOwner)>> = Vec::new();
        let mut i: usize = 0;
        while i < m
            invariant
                i <= m,
                slots@.len() == i,
                forall|j: int| 0 <= j < i ==> slots@[j] is None,
            decreases m - i,
        {
            slots.push(None);
            i = i + 1;
        }
        let mut t = IrqOwnerTable { slots };
        let mut p: usize = 0;
        while p < pairs.len()
            invariant
                p <= pairs@.len(),
                t.slots@.len() == m,
                m > 0,
                t.wf(),
                forall|j: int|
                    0 <= j < p
                        ==> t.spec_get((#[trigger] pairs@[j]).0.0) == Some(pairs@[j].1),
            decreases pairs@.len() - p,
        {
            let (irq, owner) = pairs[p];
            let slot = (irq.0 as usize) % m;
            let ghost t_pre = t;
            match t.slots[slot] {
                Some(_) => {
                    return Err(());
                },
                None => {
                    t.slots[slot] = Some((irq, owner));
                },
            }
            proof {
                assert forall|j: int| 0 <= j < p + 1 implies t.spec_get(
                    (#[trigger] pairs@[j]).0.0,
                ) == Some(pairs@[j].1) by {
                    if j < p {
                        let n = pairs@[j].0.0;
                        if n as int % m as int != slot as int {
                            assert(t.slots@[n as int % m as int]
                                == t_pre.slots@[n as int % m as int]);
                        }
                    }
                }
            }
            p = p + 1;
        }
        Ok(t)
    }
}

/// The slot an owner's interrupt list may occupy in a table of `len`
/// slots.
pub open spec fn owner_slot(owner: InterruptOwner, len: int) -> int {
    (owner.task + owner.notification) % len
}

/// The reverse routing table: from an owning task and notification set to
/// the interrupt numbers behind it.
pub struct TaskIrqTable {
    /// The slots; an entry for owner `o` may sit only in slot
    /// `owner_slot(o)`.
    pub slots: Vec<Option<(InterruptOwner, Vec<InterruptNum>)>>,
}

impl TaskIrqTable {
    /// Every occupied slot holds an owner that hashes to it.
    pub open spec fn wf(self) -> bool {
        forall|i: int|
            0 <= i < self.slots@.len()
                ==> match #[trigger] self.slots@[i] {
                    Some((o, _)) => owner_slot(o, self.slots@.len() as int) == i,
                    None => true,
                }
    }

    /// The interrupt numbers recorded for `owner`, if any.
    pub open spec fn spec_get(self, owner: InterruptOwner) -> Option<Seq<InterruptNum>> {
        if self.slots@.len() == 0 {
            None
        } else {
            match self.slots@[owner_slot(owner, self.slots@.len() as int)] {
                Some((o, irqs)) => if o == owner {
                    Some(irqs@)
                } else {
                    None
                },
                None => None,
            }
        }
    }

    /// Looks up the interrupt numbers behind an owner's notification bits.
    pub fn get(&self, owner: InterruptOwner) -> (r: Option<&Vec<InterruptNum>>)
        ensures
            match r {
                Some(irqs) => self.spec_get(owner) == Some(irqs@),
                None => self.spec_get(owner) is None,
            },
    {
        if self.slots.len() == 0 {
            return None;
        }
        let slot = ((owner.task as u64 + owner.notification as u64)
            % self.slots.len() as u64) as usize;
        match &self.slots[slot] {
            Some((o, irqs)) => if o.task == owner.task && o.notification == owner.notification {
                Some(irqs)
            } else {
                None
            },
            None => None,
        }
    }

    /// Builds a reverse table of `m` slots from owner/interrupt-list
    /// pairs. Fails when two owners collide in a slot or repeat; the
    /// offline tool picks `m` so that they never do.
    pub fn build(m: usize, pairs: Vec<(InterruptOwner, Vec<InterruptNum>)>) -> (r: Result<
        TaskIrqTable,
        (),
    >)
        requires
            m > 0,
        ensures
            match r {
                Ok(t) => {
                    &&& t.wf()
                    &&& t.slots@.len() == m
                    &&& forall|j: int|
                        0 <= j < pairs@.len()
                            ==> t.spec_get((#[trigger] pairs@[j]).0) == Some(pairs@[j].1@)
                },
                Err(()) => true,
            },
    {
        let mut slots: Vec<Option<(InterruptOwner, Vec<InterruptNum>)>> = Vec::new();
        let mut i: usize = 0;
        while i < m
            invariant
                i <= m,
                slots@.len() == i,
                forall|j: int| 0 <= j < i ==> slots@[j] is None,
            decreases m - i,
        {
            slots.push(None);
            i = i + 1;
        }
        let mut t = TaskIrqTable { slots };
        let mut pairs = pairs;
        let ghost pairs0 = pairs@;
        let mut p: usize = 0;
        let n = pairs.len();
        while p < n
            invariant
                n == pairs0.len(),
                p <= n,
                pairs@ == pairs0.skip(p as int),
                t.slots@.len() == m,
                m > 0,
                t.wf(),
                forall|j: int|
                    0 <= j < p
                        ==> t.spec_get((#[trigger] pairs0[j]).0) == Some(pairs0[j].1@),
            decreases n - p,
        {
            let (owner, irqs) = pairs.remove(0);
            proof {
                assert(pairs@ =~= pairs0.skip(p as int + 1));
                assert((owner, irqs) == pairs0[p as int]);
            }
            let slot = ((owner.task as u64 + owner.notification as u64) % m as u64) as usize;
            let occupied = match &t.slots[slot] {
                Some(_) => true,
                None => false,
            };
            if occupied {
                return Err(());
            }
            let ghost t_pre = t;
            t.slots[slot] = Some((owner, irqs));
            proof {
                assert forall|j: int| 0 <= j < p + 1 implies t.spec_get(
                    (#[trigger] pairs0[j]).0,
                ) == Some(pairs0[j].1@) by {
                    if j < p {
                        let o = pairs0[j].0;
                        if owner_slot(o, m as int) != slot as int {
                            assert(t.slots@[owner_slot(o, m as int)]
                                == t_pre.slots@[owner_slot(o, m as int)]);
                        } else {
                            assert(t_pre.slots@[slot as int] is None);
                            assert(t_pre.spec_get(o) is None);
                            assert(false);
                        }
                    }
                }
            }
            p = p + 1;
        }
        Ok(t)
    }
}

/// Looks up the interrupt numbers behind a task's notification bits; the
/// form of the reverse lookup the interrupt-control path uses.
pub fn get_task_irqs(table: &TaskIrqTable, owner: InterruptOwner) -> (r: Result<
    &Vec<InterruptNum>,
    (),
>)
    ensures
        match r {
            Ok(irqs) => table.spec_get(owner) == Some(irqs@),
            Err(()) => table.spec_get(owner) is None,
        },
{
    match table.get(owner) {
        Some(irqs) => Ok(irqs),
        None => Err(()),
    }
}

/// Looks up the owner of a hardware interrupt; the form of the forward
/// lookup the interrupt dispatch path uses.
pub fn get_irq_owner(table: &IrqOwnerTable, irq: u32) -> (r: Result<InterruptOwner, ()>)
    ensures
        match r {
            Ok(owner) => table.spec_get(irq) == Some(owner),
            Err(()) => table.spec_get(irq) is None,
        },
{
    match table.get(InterruptNum(irq)) {
        Some(owner) => Ok(owner),
        None => Err(()),
    }
}

} // verus!
