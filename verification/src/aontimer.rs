//! The always-on watchdog timer.
//!
//! The device is a counter that keeps running while the rest of the
//! system sleeps. Past a first threshold it raises an interrupt, the
//! bark; past a second it resets the system, the bite. The device's
//! registers are held here as plain fields — a platform shell mirrors
//! them to the memory-mapped block — so the threshold arithmetic, the
//! bark-before-bite rule, and the configuration lock are all stated and
//! proved.

use vstd::prelude::*;

verus! {

/// The always-on watchdog timer: its register file and clock rate.
#[derive(Copy, Clone, Debug, PartialEq, Eq, Structural)]
pub struct AonTimer {
    /// Write-enable register; zero locks the configuration for good.
    pub wdog_regwen: u32,
    /// Control register; bit zero enables the watchdog.
    pub wdog_ctrl: u32,
    /// Count at which the watchdog barks, raising its interrupt.
    pub wdog_bark_thold: u32,
    /// Count at which the watchdog bites, resetting the system.
    pub wdog_bite_thold: u32,
    /// The running count.
    pub wdog_count: u32,
    /// Interrupt state register; writing a bit acknowledges it.
    pub intr_state: u32,
    /// The clock feeding the counter, in counts per second.
    pub clock_freq_hz: u32,
}

/// The register count a millisecond threshold converts to.
pub open spec fn spec_ms_to_count(clock_freq_hz: u32, ms: u64) -> int {
    ms * (clock_freq_hz / 1000)
}

impl AonTimer {
    /// Whether the configuration is still writable.
    pub open spec fn spec_unlocked(self) -> bool {
        self.wdog_regwen == 1
    }

    /// Converts a millisecond threshold to a register count. The count
    /// must fit the 32-bit threshold register; a larger product is
    /// reported as an error. The product must also fit 64-bit
    /// intermediate arithmetic.
    pub fn ms_to_reg_count(&self, ms: u64) -> (r: Result<u32, ()>)
        requires
            spec_ms_to_count(self.clock_freq_hz, ms) <= u64::MAX,
        ensures
            match r {
                Ok(c) => c == spec_ms_to_count(self.clock_freq_hz, ms)
                    && spec_ms_to_count(self.clock_freq_hz, ms) <= u32::MAX,
                Err(()) => spec_ms_to_count(self.clock_freq_hz, ms) > u32::MAX,
            },
    {
        let time: u64 = ms * ((self.clock_freq_hz / 1000) as u64);
        if time <= u32::MAX as u64 {
            Ok(#[verifier::truncate] (time as u32))
        } else {
            Err(())
        }
    }

    /// Sets a new watchdog up: the count cleared, pending interrupts
    /// acknowledged, and both thresholds programmed from milliseconds. A
    /// bark threshold above the bite threshold is rejected, as the bite
    /// would fire first; so is a threshold beyond the register range.
    pub fn new(clock_freq_hz: u32, bark_thold_ms: u64, bite_thold_ms: u64) -> (r: Result<
        AonTimer,
        (),
    >)
        requires
            bark_thold_ms * (clock_freq_hz / 1000) <= u64::MAX,
            bite_thold_ms * (clock_freq_hz / 1000) <= u64::MAX,
        ensures
            match r {
                Ok(t) => {
                    &&& bark_thold_ms <= bite_thold_ms
                    &&& t.wdog_count == 0
                    &&& t.intr_state == 0b11
                    &&& t.wdog_bark_thold == spec_ms_to_count(clock_freq_hz, bark_thold_ms)
                    &&& t.wdog_bite_thold == spec_ms_to_count(clock_freq_hz, bite_thold_ms)
                    &&& t.wdog_ctrl == 0
                    &&& t.wdog_regwen == 1
                    &&& t.clock_freq_hz == clock_freq_hz
                },
                Err(()) => bark_thold_ms > bite_thold_ms || spec_ms_to_count(
                    clock_freq_hz,
                    bark_thold_ms,
                ) > u32::MAX || spec_ms_to_count(clock_freq_hz, bite_thold_ms) > u32::MAX,
            },
    {
        let mut inst = AonTimer {
            wdog_regwen: 1,
            wdog_ctrl: 0,
            wdog_bark_thold: 0,
            wdog_bite_thold: 0,
            wdog_count: 0,
            intr_state: 0b11,
            clock_freq_hz,
        };
        let bark = match inst.ms_to_reg_count(bark_thold_ms) {
            Ok(c) => c,
            Err(()) => {
                return Err(());
            },
        };
        inst.wdog_bark_thold = bark;
        if bark_thold_ms > bite_thold_ms {
            return Err(());
        }
        let bite = match inst.ms_to_reg_count(bite_thold_ms) {
            Ok(c) => c,
            Err(()) => {
                return Err(());
            },
        };
        inst.wdog_bite_thold = bite;
        Ok(inst)
    }

    /// Disables the watchdog; fails once the configuration is locked.
    pub fn disable(&mut self) -> (r: Result<(), ()>)
        ensures
            match r {
                Ok(()) => old(self).spec_unlocked() && *final(self) == (AonTimer {
                    wdog_ctrl: 0,
                    ..*old(self)
                }),
                Err(()) => !old(self).spec_unlocked() && *final(self) == *old(self),
            },
    {
        if self.wdog_regwen != 1 {
            return Err(());
        }
        self.wdog_ctrl = 0;
        Ok(())
    }

    /// Enables the watchdog; fails once the configuration is locked.
    pub fn enable(&mut self) -> (r: Result<(), ()>)
        ensures
            match r {
                Ok(()) => old(self).spec_unlocked() && *final(self) == (AonTimer {
                    wdog_ctrl: old(self).wdog_ctrl | 1,
                    ..*old(self)
                }),
                Err(()) => !old(self).spec_unlocked() && *final(self) == *old(self),
            },
    {
        if self.wdog_regwen != 1 {
            return Err(());
        }
        self.wdog_ctrl = self.wdog_ctrl | 1;
        Ok(())
    }

    /// Enables the watchdog and locks the configuration for good; fails
    /// if it is already locked.
    pub fn enable_and_lock(&mut self) -> (r: Result<(), ()>)
        ensures
            match r {
                Ok(()) => old(self).spec_unlocked() && *final(self) == (AonTimer {
                    wdog_ctrl: old(self).wdog_ctrl | 1,
                    wdog_regwen: 0,
                    ..*old(self)
                }),
                Err(()) => !old(self).spec_unlocked() && *final(self) == *old(self),
            },
    {
        if self.wdog_regwen != 1 {
            return Err(());
        }
        self.wdog_ctrl = self.wdog_ctrl | 1;
        self.wdog_regwen = 0;
        Ok(())
    }

    /// Reprograms the bark threshold in milliseconds; fails once the
    /// configuration is locked or the count overflows the register.
    pub fn set_bark_thold(&mut self, bark_thold_ms: u64) -> (r: Result<(), ()>)
        requires
            bark_thold_ms * (old(self).clock_freq_hz / 1000) <= u64::MAX,
        ensures
            match r {
                Ok(()) => old(self).spec_unlocked() && *final(self) == (AonTimer {
                    wdog_bark_thold: spec_ms_to_count(
                        old(self).clock_freq_hz,
                        bark_thold_ms,
                    ) as u32,
                    ..*old(self)
                }) && spec_ms_to_count(old(self).clock_freq_hz, bark_thold_ms) <= u32::MAX,
                Err(()) => (!old(self).spec_unlocked() || spec_ms_to_count(
                    old(self).clock_freq_hz,
                    bark_thold_ms,
                ) > u32::MAX) && *final(self) == *old(self),
            },
    {
        if self.wdog_regwen != 1 {
            return Err(());
        }
        let c = match self.ms_to_reg_count(bark_thold_ms) {
            Ok(c) => c,
            Err(()) => {
                return Err(());
            },
        };
        self.wdog_bark_thold = c;
        Ok(())
    }

    /// Reprograms the bite threshold in milliseconds; fails once the
    /// configuration is locked or the count overflows the register.
    pub fn set_bite_thold(&mut self, bite_thold_ms: u64) -> (r: Result<(), ()>)
        requires
            bite_thold_ms * (old(self).clock_freq_hz / 1000) <= u64::MAX,
        ensures
            match r {
                Ok(()) => old(self).spec_unlocked() && *final(self) == (AonTimer {
                    wdog_bite_thold: spec_ms_to_count(
                        old(self).clock_freq_hz,
                        bite_thold_ms,
                    ) as u32,
                    ..*old(self)
                }) && spec_ms_to_count(old(self).clock_freq_hz, bite_thold_ms) <= u32::MAX,
                Err(()) => (!old(self).spec_unlocked() || spec_ms_to_count(
                    old(self).clock_freq_hz,
                    bite_thold_ms,
                ) > u32::MAX) && *final(self) == *old(self),
            },
    {
        if self.wdog_regwen != 1 {
            return Err(());
        }
        let c = match self.ms_to_reg_count(bite_thold_ms) {
            Ok(c) => c,
            Err(()) => {
                return Err(());
            },
        };
        self.wdog_bite_thold = c;
        Ok(())
    }

    /// Feeds the watchdog: the count starts over from zero.
    pub fn feed_sacrifice(&mut self)
        ensures
            *final(self) == (AonTimer { wdog_count: 0, ..*old(self) }),
    {
        self.wdog_count = 0;
    }

    /// Acknowledges the bark interrupt.
    pub fn clear_wdt_irq(&mut self)
        ensures
            *final(self) == (AonTimer {
                intr_state: old(self).intr_state | 0x2,
                ..*old(self)
            }),
    {
        self.intr_state = self.intr_state | 0x2;
    }
}

} // verus!
