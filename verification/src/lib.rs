//! A verified model of a small, statically configured microkernel for 32-bit
//! RISC-V microcontrollers.
//!
//! The kernel hosts a fixed set of isolated tasks and mediates all interaction
//! between them through a synchronous send/receive/reply rendezvous. This
//! crate verifies the kernel's core logic: the task state machine, the IPC
//! protocol with lease-based borrows, priority scheduling, per-task timers,
//! notification posting, interrupt routing tables, fault handling, and the
//! translation of region tables into memory-protection entries. Hardware
//! access (CSR writes, the trap stub, MMIO) is represented by plain machine
//! state that a thin platform shell drives.

pub mod abi;
pub mod aontimer;
pub mod apis;
pub mod arch;
pub mod header;
pub mod interrupts;
pub mod ipc;
pub mod kernel;
pub mod laws;
pub mod profiling;
pub mod saved_state;
pub mod sbi;
pub mod stringbuf;
pub mod taskids;
pub mod task;
pub mod umem;
