//! Error and value types of the driver interfaces around the kernel: the
//! external interrupt controller, the platform-level interrupt
//! controller, the reset service, and the fan identifiers of the thermal
//! service.

use vstd::prelude::*;

verus! {

/// Errors of the external interrupt controller interface.
#[derive(Copy, Clone, Debug, PartialEq, Eq, Structural)]
pub enum ExtIntCtrlError {
    /// The named interrupt is assigned to no task.
    IRQUnassigned,
}

impl ExtIntCtrlError {
    /// The wire encoding of this error; error codes start at one so zero
    /// stays the success code.
    pub fn code(self) -> (c: u32)
        ensures
            c == 1,
    {
        match self {
            ExtIntCtrlError::IRQUnassigned => 1,
        }
    }
}

/// Errors of the platform-level interrupt controller interface.
#[derive(Copy, Clone, Debug, PartialEq, Eq, Structural)]
pub enum RiscvIntCtrlError {
    /// The named interrupt is assigned to no task.
    IRQUnassigned,
    /// Some other failure inside the controller.
    UnknownErr,
}

impl RiscvIntCtrlError {
    /// The wire encoding of this error; error codes start at one so zero
    /// stays the success code.
    pub fn code(self) -> (c: u32)
        ensures
            c == match self {
                RiscvIntCtrlError::IRQUnassigned => 1u32,
                RiscvIntCtrlError::UnknownErr => 2u32,
            },
    {
        match self {
            RiscvIntCtrlError::IRQUnassigned => 1,
            RiscvIntCtrlError::UnknownErr => 2,
        }
    }
}

/// The kinds of reset a client can ask the reset service for.
#[derive(Copy, Clone, Debug, PartialEq, Eq, Structural)]
pub enum ResetType {
    /// Power the platform off.
    Shutdown,
    /// Reboot from cold.
    ColdReboot,
    /// Reboot keeping volatile state where the platform can.
    WarmReboot,
}

/// Platform-agnostic reset status causes.
#[derive(Copy, Clone, Debug, PartialEq, Eq)]
pub enum ResetReason {
    /// Power was applied.
    PowerOn,
    /// The external reset pin was asserted.
    Pin,
    /// Software asked for the reset.
    SystemCall,
    /// Supply voltage dropped too low.
    Brownout,
    /// The system watchdog fired.
    SystemWatchdog,
    /// The independent watchdog fired.
    IndependentWatchdog,
    /// A low-power security condition forced the reset.
    LowPowerSecurity,
    /// The platform left standby.
    ExitStandby,
    /// A platform-specific cause, carried as its raw code.
    Other(u32),
    /// The cause could not be determined.
    Unknown,
}

/// Errors of the reset service interface.
#[derive(Copy, Clone, Debug, PartialEq, Eq, Structural)]
pub enum ResetError {
    /// The asked-for reset kind is not implemented on this platform.
    NotImplemented,
}

impl ResetError {
    /// The wire encoding of this error; error codes start at one so zero
    /// stays the success code.
    pub fn code(self) -> (c: u32)
        ensures
            c == 1,
    {
        match self {
            ResetError::NotImplemented => 1,
        }
    }
}

/// A fan identifier of the thermal service; the application may carry
/// more fans than any single controller supports, so fans are numbered
/// flat.
#[derive(Copy, Clone, Debug, PartialEq, Eq, Structural)]
pub struct Fan(pub u8);

impl Fan {
    /// Builds the fan identifier for flat index `index`.
    pub fn from_index(index: usize) -> (f: Fan)
        requires
            index <= u8::MAX,
        ensures
            f.0 == index,
    {
        Fan(index as u8)
    }
}

} // verus!
