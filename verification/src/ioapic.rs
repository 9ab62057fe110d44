//! I/O APIC: the registers that route external interrupts (IRQs) to
//! interrupt vectors. Registers are reached through a select register and a
//! window; 64-bit registers are two 32-bit halves. See
//! <https://wiki.osdev.org/IOAPIC>.

use vstd::prelude::*;

verus! {

/// Register number of the I/O APIC ID register.
pub const IOAPIC_ID_REGISTER_OFFSET: u8 = 0x00;

/// Register number of the I/O APIC version register.
pub const IOAPIC_VERSION_REGISTER_OFFSET: u8 = 0x01;

/// Register number of the first redirection table entry.
pub const IOAPIC_REDIRECTION_TABLE_REGISTER_OFFSET: u8 = 0x10;

/// The IRQ numbers that this kernel routes.
#[derive(Debug, Clone, Copy, PartialEq, Eq, Structural)]
pub enum IOAPICIRQNumber {
    Reserved,
    Keyboard,
    Tick,
    TestHPET,
}

impl IOAPICIRQNumber {
    pub open spec fn as_u8_spec(self) -> u8 {
        match self {
            IOAPICIRQNumber::Reserved => 0,
            IOAPICIRQNumber::Keyboard => 1,
            IOAPICIRQNumber::Tick => 9,
            IOAPICIRQNumber::TestHPET => 10,
        }
    }

    pub fn as_u8(self) -> (r: u8)
        ensures
            r == self.as_u8_spec(),
    {
        match self {
            IOAPICIRQNumber::Reserved => 0,
            IOAPICIRQNumber::Keyboard => 1,
            IOAPICIRQNumber::Tick => 9,
            IOAPICIRQNumber::TestHPET => 10,
        }
    }
}

/// The I/O APIC ID register: the ID in bits 24 to 27.
#[derive(Debug, Clone, Copy, PartialEq, Eq, Structural)]
pub struct IOAPICID(pub u32);

impl IOAPICID {
    pub fn id(self) -> (r: u8)
        ensures
            r == ((self.0 >> 24u32) & 0xF) as u8,
    {
        let raw = self.0;
        ((raw >> 24u32) & 0xF) as u8
    }
}

/// The I/O APIC version register: the version in bits 0 to 7 and the
/// highest redirection entry in bits 16 to 23.
#[derive(Debug, Clone, Copy, PartialEq, Eq, Structural)]
pub struct IOAPICVersion(pub u32);

impl IOAPICVersion {
    pub fn version(self) -> (r: u8)
        ensures
            r == (self.0 & 0xFF) as u8,
    {
        (self.0 & 0xFF) as u8
    }

    pub fn max_redirection_entry(self) -> (r: u8)
        ensures
            r == ((self.0 >> 16u32) & 0xFF) as u8,
    {
        ((self.0 >> 16u32) & 0xFF) as u8
    }
}

/// A redirection table entry: the interrupt vector (bits 0 to 7), delivery
/// mode (8 to 10), destination mode (11), delivery status (12), pin
/// polarity (13), remote IRR (14), trigger mode (15), mask (16) and
/// destination (56 to 63).
#[derive(Debug, Clone, Copy, PartialEq, Eq, Structural)]
pub struct IOAPICRedirectionTableRegister(pub u64);

/// `v` with the bits selected by `mask << shift` replaced by `x`.
pub open spec fn with_field_u64(v: u64, shift: u64, mask: u64, x: u64) -> u64 {
    (v & !(mask << shift)) | ((x & mask) << shift)
}

fn set_field_u64(v: u64, shift: u64, mask: u64, x: u64) -> (r: u64)
    requires
        shift < 64,
    ensures
        r == with_field_u64(v, shift, mask, x),
{
    (v & !(mask << shift)) | ((x & mask) << shift)
}

impl IOAPICRedirectionTableRegister {
    pub fn new() -> (r: IOAPICRedirectionTableRegister)
        ensures
            r.0 == 0,
    {
        IOAPICRedirectionTableRegister(0)
    }

    pub fn interrupt_vector(self) -> (r: u8)
        ensures
            r == (self.0 & 0xFF) as u8,
    {
        (self.0 & 0xFF) as u8
    }

    pub fn delivery_mode(self) -> (r: u8)
        ensures
            r == ((self.0 >> 8u64) & 0b111) as u8,
    {
        ((self.0 >> 8u64) & 0b111) as u8
    }

    pub fn destination_mode(self) -> (r: bool)
        ensures
            r == ((self.0 >> 11u64) & 1 == 1),
    {
        (self.0 >> 11u64) & 1 == 1
    }

    pub fn delivery_status(self) -> (r: bool)
        ensures
            r == ((self.0 >> 12u64) & 1 == 1),
    {
        (self.0 >> 12u64) & 1 == 1
    }

    pub fn interrupt_mask(self) -> (r: bool)
        ensures
            r == ((self.0 >> 16u64) & 1 == 1),
    {
        (self.0 >> 16u64) & 1 == 1
    }

    pub fn destination_field(self) -> (r: u8)
        ensures
            r == (self.0 >> 56u64) as u8,
    {
        (self.0 >> 56u64) as u8
    }

    pub fn with_interrupt_vector(self, vector: u8) -> (r: IOAPICRedirectionTableRegister)
        ensures
            r.0 == with_field_u64(self.0, 0, 0xFF, vector as u64),
    {
        IOAPICRedirectionTableRegister(set_field_u64(self.0, 0, 0xFF, vector as u64))
    }

    pub fn with_delivery_mode(self, mode: u8) -> (r: IOAPICRedirectionTableRegister)
        ensures
            r.0 == with_field_u64(self.0, 8, 0b111, mode as u64),
    {
        IOAPICRedirectionTableRegister(set_field_u64(self.0, 8, 0b111, mode as u64))
    }

    pub fn with_destination_mode(self, logical: bool) -> (r: IOAPICRedirectionTableRegister)
        ensures
            r.0 == with_field_u64(self.0, 11, 1, if logical { 1 } else { 0 }),
    {
        IOAPICRedirectionTableRegister(set_field_u64(self.0, 11, 1, if logical { 1 } else { 0 }))
    }

    pub fn with_delivery_status(self, pending: bool) -> (r: IOAPICRedirectionTableRegister)
        ensures
            r.0 == with_field_u64(self.0, 12, 1, if pending { 1 } else { 0 }),
    {
        IOAPICRedirectionTableRegister(set_field_u64(self.0, 12, 1, if pending { 1 } else { 0 }))
    }

    pub fn with_interrupt_mask(self, masked: bool) -> (r: IOAPICRedirectionTableRegister)
        ensures
            r.0 == with_field_u64(self.0, 16, 1, if masked { 1 } else { 0 }),
    {
        IOAPICRedirectionTableRegister(set_field_u64(self.0, 16, 1, if masked { 1 } else { 0 }))
    }

    pub fn with_destination_field(self, destination: u8) -> (r: IOAPICRedirectionTableRegister)
        ensures
            r.0 == with_field_u64(self.0, 56, 0xFF, destination as u64),
    {
        IOAPICRedirectionTableRegister(set_field_u64(self.0, 56, 0xFF, destination as u64))
    }
}

/// The redirection entry that routes an IRQ to `interrupt_vector` on the
/// CPU with APIC ID `destination`: unmasked, fixed delivery, physical
/// destination.
pub fn irq_redirection_entry(interrupt_vector: u8, destination: u8) -> (r: IOAPICRedirectionTableRegister)
    ensures
        r.0 == (interrupt_vector as u64) | ((destination as u64) << 56u64),
{
    let r = IOAPICRedirectionTableRegister::new().with_interrupt_vector(interrupt_vector).with_interrupt_mask(
        false,
    ).with_delivery_mode(0).with_destination_mode(false).with_delivery_status(false).with_destination_field(
        destination,
    );
    let v = interrupt_vector as u64;
    let d = destination as u64;
    let raw = r.0;
    assert(raw == v | (d << 56u64)) by (bit_vector)
        requires
            v < 256,
            d < 256,
            raw == with_field_u64(
                with_field_u64(
                    with_field_u64(
                        with_field_u64(
                            with_field_u64(with_field_u64(0, 0, 0xFF, v), 16, 1, 0),
                            8,
                            0b111,
                            0,
                        ),
                        11,
                        1,
                        0,
                    ),
                    12,
                    1,
                    0,
                ),
                56,
                0xFF,
                d,
            ),
    ;
    r
}

/// Register number of redirection table entry `entry`. The Intel I/O APIC
/// has only 24 entries.
pub fn ioredtbl_register(entry: u8) -> (r: u8)
    requires
        entry < 24,
    ensures
        r == IOAPIC_REDIRECTION_TABLE_REGISTER_OFFSET + 2 * entry,
{
    IOAPIC_REDIRECTION_TABLE_REGISTER_OFFSET + (entry * 2)
}

/// The two 32-bit writes that write `value` to the 64-bit register
/// `register`: the low half to `register`, the high half to the next one.
pub fn split_64_bit_register(register: u8, value: u64) -> (r: [(u8, u32); 2])
    requires
        register < 0xFF,
    ensures
        r@[0] == (register, (value % 0x1_0000_0000) as u32),
        r@[1] == ((register + 1) as u8, (value / 0x1_0000_0000) as u32),
{
    let low = (value % 0x1_0000_0000) as u32;
    let high = (value / 0x1_0000_0000) as u32;
    [(register, low), (register + 1, high)]
}

/// The 64-bit value whose halves were read from a register and the next.
pub fn combine_64_bit_register(low: u32, high: u32) -> (r: u64)
    ensures
        r == high * 0x1_0000_0000 + low,
{
    (high as u64) * 0x1_0000_0000 + low as u64
}

/// Reading back the two halves of a 64-bit register that were written
/// gives back the value.
pub proof fn lemma_split_combine(value: u64)
    ensures
        ((value / 0x1_0000_0000) as u32) * 0x1_0000_0000 + ((value % 0x1_0000_0000) as u32) == value,
{
}

/// The writes that set redirection table entry `entry` to `value`.
pub fn ioredtbl_writes(entry: u8, value: IOAPICRedirectionTableRegister) -> (r: [(u8, u32); 2])
    requires
        entry < 24,
    ensures
        r@[0] == ((0x10 + 2 * entry) as u8, (value.0 % 0x1_0000_0000) as u32),
        r@[1] == ((0x11 + 2 * entry) as u8, (value.0 / 0x1_0000_0000) as u32),
{
    let register = ioredtbl_register(entry);
    split_64_bit_register(register, value.0)
}

} // verus!
