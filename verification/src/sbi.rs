//! The supervisor binary interface, as call descriptors.
//!
//! On hardware each of these ends in an environment call with the
//! extension and function identifiers in registers `a6` and `a7`. Here a
//! call is represented by the descriptor the platform shell must execute,
//! so the identifiers and arguments each call carries are stated exactly.

use vstd::prelude::*;

verus! {

/// The base extension identifier.
pub const SBI_EID_BASE: usize = 0x10;

/// Base extension: get the specification version.
pub const SBI_FID_BASE_GET_SPEC_VERSION: usize = 0x0;

/// Base extension: get the implementation version.
pub const SBI_FID_BASE_GET_SBI_VERSION: usize = 0x02;

/// The timer extension identifier, the word `TIME`.
pub const SBI_EID_TIMER: usize = 0x5449_4D45;

/// Timer extension: program the next timer event.
pub const SBI_FID_TIMER_SET_TIMER: usize = 0x0;

/// The system reset extension identifier, the word `SRST`.
pub const SBI_EID_SYSTEM_RESET: usize = 0x5352_5354;

/// Reset extension: perform a system reset.
pub const SBI_FID_SYSTEM_RESET_SYSTEM_RESET: usize = 0x0;

/// One environment call: the extension and function identifiers and up to
/// two arguments, exactly as they go into the argument registers.
#[derive(Copy, Clone, Debug, PartialEq, Eq, Structural)]
pub struct SbiCall {
    /// Extension identifier, register `a7`.
    pub eid: usize,
    /// Function identifier, register `a6`.
    pub fid: usize,
    /// First argument, register `a0`.
    pub arg0: usize,
    /// Second argument, register `a1`.
    pub arg1: usize,
}

/// Builds the call that reads the specification version.
pub fn sbi_get_spec_version() -> (c: SbiCall)
    ensures
        c == (SbiCall {
            eid: SBI_EID_BASE,
            fid: SBI_FID_BASE_GET_SPEC_VERSION,
            arg0: 0,
            arg1: 0,
        }),
{
    SbiCall { eid: SBI_EID_BASE, fid: SBI_FID_BASE_GET_SPEC_VERSION, arg0: 0, arg1: 0 }
}

/// Builds the call that reads the implementation version.
pub fn sbi_get_sbi_version() -> (c: SbiCall)
    ensures
        c == (SbiCall {
            eid: SBI_EID_BASE,
            fid: SBI_FID_BASE_GET_SBI_VERSION,
            arg0: 0,
            arg1: 0,
        }),
{
    SbiCall { eid: SBI_EID_BASE, fid: SBI_FID_BASE_GET_SBI_VERSION, arg0: 0, arg1: 0 }
}

/// Builds the call that programs the next timer event at `stime_value`.
pub fn sbi_set_timer(stime_value: u64) -> (c: SbiCall)
    ensures
        c.eid == SBI_EID_TIMER,
        c.fid == SBI_FID_TIMER_SET_TIMER,
        c.arg0 == stime_value as usize,
        c.arg1 == 0,
{
    SbiCall {
        eid: SBI_EID_TIMER,
        fid: SBI_FID_TIMER_SET_TIMER,
        arg0: #[verifier::truncate] (stime_value as usize),
        arg1: 0,
    }
}

/// The kinds of reset the reset extension offers.
#[derive(Copy, Clone, Debug, PartialEq, Eq, Structural)]
pub enum ResetType {
    /// Power the platform off.
    Shutdown,
    /// Reboot from cold.
    ColdReboot,
    /// Reboot keeping volatile state where the platform can.
    WarmReboot,
}

impl ResetType {
    /// The wire encoding of the reset type.
    pub open spec fn spec_code(self) -> usize {
        match self {
            ResetType::Shutdown => 0,
            ResetType::ColdReboot => 1,
            ResetType::WarmReboot => 2,
        }
    }

    /// Encodes the reset type for the call.
    pub fn code(self) -> (c: usize)
        ensures
            c == self.spec_code(),
    {
        match self {
            ResetType::Shutdown => 0,
            ResetType::ColdReboot => 1,
            ResetType::WarmReboot => 2,
        }
    }
}

/// The reasons a reset can carry.
#[derive(Copy, Clone, Debug, PartialEq, Eq, Structural)]
pub enum ResetReason {
    /// An ordinary, requested reset.
    NoReason,
    /// A reset after a system failure.
    SystemFailure,
}

impl ResetReason {
    /// The wire encoding of the reset reason.
    pub open spec fn spec_code(self) -> usize {
        match self {
            ResetReason::NoReason => 0,
            ResetReason::SystemFailure => 1,
        }
    }

    /// Encodes the reset reason for the call.
    pub fn code(self) -> (c: usize)
        ensures
            c == self.spec_code(),
    {
        match self {
            ResetReason::NoReason => 0,
            ResetReason::SystemFailure => 1,
        }
    }
}

/// Builds the call that resets the platform.
pub fn sbi_system_reset(reset_type: ResetType, reset_reason: ResetReason) -> (c: SbiCall)
    ensures
        c.eid == SBI_EID_SYSTEM_RESET,
        c.fid == SBI_FID_SYSTEM_RESET_SYSTEM_RESET,
        c.arg0 == reset_type.spec_code(),
        c.arg1 == reset_reason.spec_code(),
{
    SbiCall {
        eid: SBI_EID_SYSTEM_RESET,
        fid: SBI_FID_SYSTEM_RESET_SYSTEM_RESET,
        arg0: reset_type.code(),
        arg1: reset_reason.code(),
    }
}

} // verus!
