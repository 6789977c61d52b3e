//! The per-task saved register file.
//!
//! The registers a trap must preserve across context switches, laid out one
//! field per register plus the program counter. The syscall interface reads
//! its arguments from the `a0`..`a7` slots and writes results back into
//! `a0`..`a5`.

use vstd::prelude::*;

verus! {

/// Registers saved across context switches, plus the task program counter.
#[derive(Copy, Clone, Debug, PartialEq, Eq, Structural)]
pub struct SavedState {
    /// Return address register.
    pub ra: u32,
    /// Stack pointer register.
    pub sp: u32,
    /// Global pointer register.
    pub gp: u32,
    /// Thread pointer register.
    pub tp: u32,
    /// Temporary register t0.
    pub t0: u32,
    /// Temporary register t1.
    pub t1: u32,
    /// Temporary register t2.
    pub t2: u32,
    /// Saved register s0.
    pub s0: u32,
    /// Saved register s1.
    pub s1: u32,
    /// Argument register a0; syscall argument 0 and result 0.
    pub a0: u32,
    /// Argument register a1; syscall argument 1 and result 1.
    pub a1: u32,
    /// Argument register a2; syscall argument 2 and result 2.
    pub a2: u32,
    /// Argument register a3; syscall argument 3 and result 3.
    pub a3: u32,
    /// Argument register a4; syscall argument 4 and result 4.
    pub a4: u32,
    /// Argument register a5; syscall argument 5 and result 5.
    pub a5: u32,
    /// Argument register a6; syscall argument 6.
    pub a6: u32,
    /// Argument register a7; carries the syscall number.
    pub a7: u32,
    /// Saved register s2.
    pub s2: u32,
    /// Saved register s3.
    pub s3: u32,
    /// Saved register s4.
    pub s4: u32,
    /// Saved register s5.
    pub s5: u32,
    /// Saved register s6.
    pub s6: u32,
    /// Saved register s7.
    pub s7: u32,
    /// Saved register s8.
    pub s8: u32,
    /// Saved register s9.
    pub s9: u32,
    /// Saved register s10.
    pub s10: u32,
    /// Saved register s11.
    pub s11: u32,
    /// Temporary register t3.
    pub t3: u32,
    /// Temporary register t4.
    pub t4: u32,
    /// Temporary register t5.
    pub t5: u32,
    /// Temporary register t6.
    pub t6: u32,
    /// Program counter at which the task resumes.
    pub pc: u32,
}

impl SavedState {
    /// The all-zero register file.
    pub open spec fn spec_zeroed() -> SavedState {
        SavedState {
            ra: 0, sp: 0, gp: 0, tp: 0, t0: 0, t1: 0, t2: 0, s0: 0, s1: 0,
            a0: 0, a1: 0, a2: 0, a3: 0, a4: 0, a5: 0, a6: 0, a7: 0,
            s2: 0, s3: 0, s4: 0, s5: 0, s6: 0, s7: 0, s8: 0, s9: 0,
            s10: 0, s11: 0, t3: 0, t4: 0, t5: 0, t6: 0, pc: 0,
        }
    }

    /// Builds the all-zero register file.
    pub fn zeroed() -> (s: SavedState)
        ensures
            s == SavedState::spec_zeroed(),
    {
        SavedState {
            ra: 0, sp: 0, gp: 0, tp: 0, t0: 0, t1: 0, t2: 0, s0: 0, s1: 0,
            a0: 0, a1: 0, a2: 0, a3: 0, a4: 0, a5: 0, a6: 0, a7: 0,
            s2: 0, s3: 0, s4: 0, s5: 0, s6: 0, s7: 0, s8: 0, s9: 0,
            s10: 0, s11: 0, t3: 0, t4: 0, t5: 0, t6: 0, pc: 0,
        }
    }

    /// Reads the stack pointer.
    pub fn sp(&self) -> (r: u32)
        ensures
            r == self.sp,
    {
        self.sp
    }

    /// Reads the program counter.
    pub fn pc(&self) -> (r: u32)
        ensures
            r == self.pc,
    {
        self.pc
    }

    /// Writes the stack pointer.
    pub fn set_sp(&mut self, val: u32)
        ensures
            *final(self) == (SavedState { sp: val, ..*old(self) }),
    {
        self.sp = val;
    }

    /// Writes the program counter.
    pub fn set_pc(&mut self, val: u32)
        ensures
            *final(self) == (SavedState { pc: val, ..*old(self) }),
    {
        self.pc = val;
    }

    /// Reads the stack pointer under its architecture-independent name.
    pub fn stack_pointer(&self) -> (r: u32)
        ensures
            r == self.sp,
    {
        self.sp
    }

    /// Reads syscall argument register 0.
    pub fn arg0(&self) -> (r: u32)
        ensures
            r == self.a0,
    {
        self.a0
    }

    /// Reads syscall argument register 1.
    pub fn arg1(&self) -> (r: u32)
        ensures
            r == self.a1,
    {
        self.a1
    }

    /// Reads syscall argument register 2.
    pub fn arg2(&self) -> (r: u32)
        ensures
            r == self.a2,
    {
        self.a2
    }

    /// Reads syscall argument register 3.
    pub fn arg3(&self) -> (r: u32)
        ensures
            r == self.a3,
    {
        self.a3
    }

    /// Reads syscall argument register 4.
    pub fn arg4(&self) -> (r: u32)
        ensures
            r == self.a4,
    {
        self.a4
    }

    /// Reads syscall argument register 5.
    pub fn arg5(&self) -> (r: u32)
        ensures
            r == self.a5,
    {
        self.a5
    }

    /// Reads syscall argument register 6.
    pub fn arg6(&self) -> (r: u32)
        ensures
            r == self.a6,
    {
        self.a6
    }

    /// Reads syscall argument register 7, the syscall number slot.
    pub fn arg7(&self) -> (r: u32)
        ensures
            r == self.a7,
    {
        self.a7
    }

    /// Reads the syscall number.
    pub fn syscall_descriptor(&self) -> (r: u32)
        ensures
            r == self.a7,
    {
        self.a7
    }

    /// Writes syscall result register 0.
    pub fn ret0(&mut self, x: u32)
        ensures
            *final(self) == (SavedState { a0: x, ..*old(self) }),
    {
        self.a0 = x;
    }

    /// Writes syscall result register 1.
    pub fn ret1(&mut self, x: u32)
        ensures
            *final(self) == (SavedState { a1: x, ..*old(self) }),
    {
        self.a1 = x;
    }

    /// Writes syscall result register 2.
    pub fn ret2(&mut self, x: u32)
        ensures
            *final(self) == (SavedState { a2: x, ..*old(self) }),
    {
        self.a2 = x;
    }

    /// Writes syscall result register 3.
    pub fn ret3(&mut self, x: u32)
        ensures
            *final(self) == (SavedState { a3: x, ..*old(self) }),
    {
        self.a3 = x;
    }

    /// Writes syscall result register 4.
    pub fn ret4(&mut self, x: u32)
        ensures
            *final(self) == (SavedState { a4: x, ..*old(self) }),
    {
        self.a4 = x;
    }

    /// Writes syscall result register 5.
    pub fn ret5(&mut self, x: u32)
        ensures
            *final(self) == (SavedState { a5: x, ..*old(self) }),
    {
        self.a5 = x;
    }
}

impl Default for SavedState {
    /// The default register file is all zeroes.
    fn default() -> (s: SavedState)
        ensures
            s == SavedState::spec_zeroed(),
    {
        SavedState::zeroed()
    }
}

} // verus!
