//! The local APIC timer: its start-up register values and the tick count.
use vstd::prelude::*;

verus! {

/// Default base address of the local APIC's registers.
pub const APIC_BASE: u64 = 0xFEE0_0000;
/// Offset of the LVT timer register.
pub const APIC_LVT_TIMER: u64 = 0x320;
/// Offset of the timer's initial-count register.
pub const APIC_TIMER_INIT_COUNT: u64 = 0x380;
/// Offset of the timer's current-count register.
pub const APIC_TIMER_CURRENT_COUNT: u64 = 0x390;
/// Offset of the timer's divide-configuration register.
pub const APIC_TIMER_DIVIDE: u64 = 0x3E0;
/// Offset of the end-of-interrupt register.
pub const APIC_EOI: u64 = 0xB0;
/// Offset of the spurious-interrupt vector register.
pub const APIC_SPURIOUS: u64 = 0xF0;
/// Ticks per second.
pub const TARGET_FREQUENCY: u64 = 100;
/// Estimated base frequency of the APIC timer.
pub const APIC_TIMER_FREQUENCY: u64 = 100_000_000;

/// The register values that start the timer.
#[derive(Clone, Copy, Debug, PartialEq, Eq, Structural)]
pub struct TimerSetup {
    /// Spurious-interrupt register: software enable, vector 0xFF.
    pub spurious: u32,
    /// Divide configuration: divide by 16.
    pub divide: u32,
    /// LVT timer: periodic, unmasked, vector 32.
    pub lvt_timer: u32,
    /// Initial count: timer frequency over tick frequency.
    pub initial_count: u32,
}

/// The values to write to start the timer, given the current value of the
/// spurious-interrupt register.
pub fn init(spurious: u32) -> (setup: TimerSetup)
    ensures
        setup.spurious == spurious | 0x1FF,
        setup.divide == 3,
        setup.lvt_timer == 0x20020,
        setup.initial_count == APIC_TIMER_FREQUENCY / TARGET_FREQUENCY,
{
    let count = APIC_TIMER_FREQUENCY / TARGET_FREQUENCY;
    assert(spurious | 0x100 | 0xFF == spurious | 0x1FF) by (bit_vector);
    assert(0x20000u32 | 32u32 == 0x20020u32) by (bit_vector);
    TimerSetup {
        spurious: spurious | 0x100 | 0xFF,
        divide: 0x03,
        lvt_timer: 0x20000 | 32,
        initial_count: count as u32,
    }
}

/// The timer-interrupt count.
pub struct Timer {
    ticks: u64,
}

impl Timer {
    /// Ticks counted so far.
    pub closed spec fn count(&self) -> u64 {
        self.ticks
    }

    /// A timer that has not ticked.
    pub fn new() -> (t: Self)
        ensures
            t.count() == 0,
    {
        Timer { ticks: 0 }
    }

    /// Counts one timer interrupt; on each whole second returns the number
    /// of seconds elapsed, to be reported.
    pub fn tick(&mut self) -> (seconds: Option<u64>)
        requires
            old(self).count() < u64::MAX,
        ensures
            final(self).count() == old(self).count() + 1,
            seconds == if final(self).count() % 100 == 0 {
                Some((final(self).count() / 100) as u64)
            } else {
                None::<u64>
            },
    {
        self.ticks = self.ticks + 1;
        let count = self.ticks;
        if count % 100 == 0 {
            Some(count / 100)
        } else {
            None
        }
    }

    /// Ticks counted so far.
    pub fn ticks(&self) -> (n: u64)
        ensures
            n == self.count(),
    {
        self.ticks
    }
}

} // verus!
