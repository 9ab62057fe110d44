//! High Precision Event Timer: its capability and configuration registers,
//! and how a timer is set up to fire periodically. See
//! <https://wiki.osdev.org/HPET>.

use vstd::prelude::*;

use crate::ioapic::with_field_u64;

verus! {

pub struct Milliseconds(pub u64);

impl Milliseconds {
    pub fn new(milliseconds: u64) -> (r: Milliseconds)
        ensures
            r.0 == milliseconds,
    {
        Milliseconds(milliseconds)
    }

    /// The interval in femtoseconds, the unit of the HPET's clock period.
    pub fn femtoseconds(&self) -> (r: u64)
        requires
            self.0 * 1_000_000_000_000 <= u64::MAX,
        ensures
            r == self.0 * 1_000_000_000_000,
    {
        self.0 * 1_000_000_000_000
    }
}

/// Whether bit `bit` of `v` is set.
pub open spec fn bit_u64(v: u64, bit: u64) -> bool {
    (v >> bit) & 1 == 1
}

fn set_bit_u64(v: u64, bit: u64, on: bool) -> (r: u64)
    requires
        bit < 64,
    ensures
        r == with_field_u64(v, bit, 1, if on { 1 } else { 0 }),
{
    let x: u64 = if on { 1 } else { 0 };
    (v & !(1u64 << bit)) | ((x & 1) << bit)
}

/// The general capabilities and ID register: revision (bits 0 to 7), the
/// number of timers (8 to 12), counter width (13), legacy replacement route
/// (15), vendor (16 to 31) and the counter's clock period in femtoseconds
/// (32 to 63).
#[derive(Debug, Clone, Copy, PartialEq, Eq, Structural)]
pub struct GeneralCapabilitiesAndID(pub u64);

impl GeneralCapabilitiesAndID {
    pub fn revision_id(self) -> (r: u8)
        ensures
            r == (self.0 & 0xFF) as u8,
    {
        (self.0 & 0xFF) as u8
    }

    /// The number of comparators (i.e. timers) that the HPET supports, minus
    /// 1: the timers are numbered 0 to this value.
    pub fn number_of_timers(self) -> (r: u8)
        ensures
            r == ((self.0 >> 8u64) & 0x1F) as u8,
    {
        ((self.0 >> 8u64) & 0x1F) as u8
    }

    pub fn vendor_id(self) -> (r: u16)
        ensures
            r == ((self.0 >> 16u64) & 0xFFFF) as u16,
    {
        ((self.0 >> 16u64) & 0xFFFF) as u16
    }

    pub fn counter_clock_period(self) -> (r: u32)
        ensures
            r == (self.0 >> 32u64) as u32,
    {
        (self.0 >> 32u64) as u32
    }
}

/// The general configuration register: the enable bit (0) and legacy
/// replacement (1).
#[derive(Debug, Clone, Copy, PartialEq, Eq, Structural)]
pub struct GeneralConfiguration(pub u64);

impl GeneralConfiguration {
    pub fn enabled(self) -> (r: bool)
        ensures
            r == bit_u64(self.0, 0),
    {
        (self.0 >> 0u64) & 1 == 1
    }

    pub fn set_enabled(&mut self, enabled: bool)
        ensures
            final(self).0 == with_field_u64(old(self).0, 0, 1, if enabled { 1 } else { 0 }),
    {
        self.0 = set_bit_u64(self.0, 0, enabled);
    }
}

/// A timer's configuration and capability register: level triggering (bit
/// 1), interrupt enable (2), periodic mode (3), periodic capability (4), the
/// I/O APIC route (9 to 13) and the routes it can take (32 to 63).
#[derive(Debug, Clone, Copy, PartialEq, Eq, Structural)]
pub struct TimerConfigAndCapabilities(pub u64);

impl TimerConfigAndCapabilities {
    pub fn interrupt_enabled(self) -> (r: bool)
        ensures
            r == bit_u64(self.0, 2),
    {
        (self.0 >> 2u64) & 1 == 1
    }

    pub fn is_periodic(self) -> (r: bool)
        ensures
            r == bit_u64(self.0, 3),
    {
        (self.0 >> 3u64) & 1 == 1
    }

    pub fn periodic_interrupt_capable(self) -> (r: bool)
        ensures
            r == bit_u64(self.0, 4),
    {
        (self.0 >> 4u64) & 1 == 1
    }

    pub fn interrupt_route(self) -> (r: u8)
        ensures
            r == ((self.0 >> 9u64) & 0x1F) as u8,
    {
        ((self.0 >> 9u64) & 0x1F) as u8
    }

    pub fn interrupt_routing_capability(self) -> (r: u32)
        ensures
            r == (self.0 >> 32u64) as u32,
    {
        (self.0 >> 32u64) as u32
    }
}

/// Offset of timer `timer_number`'s registers from the HPET's base.
pub fn timer_registers_offset(timer_number: u8) -> (r: usize)
    ensures
        r == 0x100 + timer_number * 0x20,
{
    0x100 + timer_number as usize * 0x20
}

/// What the HPET's registers are set to so that a timer fires periodically.
pub struct PeriodicTimerSetup {
    pub general_configuration: GeneralConfiguration,
    pub timer_config: TimerConfigAndCapabilities,
    pub comparator_value: u64,
}

/// Sets a timer up to fire every `interval_femtoseconds` on I/O APIC
/// interrupt `ioapic_interrupt_number`: the HPET is enabled, the timer is
/// made periodic with its interrupt enabled and routed, and its comparator
/// counts the interval in clock periods. The timer must exist (its number is
/// at most `number_of_timers`, the count of timers minus one) and be able to
/// fire periodically.
pub fn enable_periodic_timer(
    caps: GeneralCapabilitiesAndID,
    general_configuration: GeneralConfiguration,
    timer_config: TimerConfigAndCapabilities,
    timer_number: u8,
    ioapic_interrupt_number: u8,
    interval_femtoseconds: u64,
) -> (r: PeriodicTimerSetup)
    requires
        (timer_number as u64) <= (caps.0 >> 8u64) & 0x1F,
        bit_u64(timer_config.0, 4),
        (caps.0 >> 32u64) as u32 > 0,
        ioapic_interrupt_number < 32,
    ensures
        r.general_configuration.0 == with_field_u64(general_configuration.0, 0, 1, 1),
        r.timer_config.0 == with_field_u64(
            with_field_u64(with_field_u64(timer_config.0, 3, 1, 1), 2, 1, 1),
            9,
            0x1F,
            ioapic_interrupt_number as u64,
        ),
        r.comparator_value == interval_femtoseconds / ((caps.0 >> 32u64) as u32 as u64),
{
    let mut general = general_configuration;
    general.set_enabled(true);
    let mut config = timer_config.0;
    config = set_bit_u64(config, 3, true);
    config = set_bit_u64(config, 2, true);
    config = (config & !(0x1Fu64 << 9u64)) | (((ioapic_interrupt_number as u64) & 0x1F) << 9u64);
    let period = caps.counter_clock_period();
    let comparator_value = interval_femtoseconds / period as u64;
    PeriodicTimerSetup {
        general_configuration: general,
        timer_config: TimerConfigAndCapabilities(config),
        comparator_value,
    }
}

} // verus!
