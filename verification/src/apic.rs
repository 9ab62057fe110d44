//! Local APIC registers: the spurious interrupt vector register that enables
//! the APIC, and the interrupt command register that sends inter-processor
//! interrupts. See "11.5 Handling Local Interrupts" and "11.6 Issuing
//! Interprocessor Interrupts" in the Intel SDM, volume 3.

use vstd::prelude::*;

verus! {

/// Interrupt vector of spurious interrupts.
pub const SPURIOUS_INTERRUPT_VECTOR_INDEX: u8 = 0xFF;

/// The bits `shift .. shift + width` of `v`.
pub open spec fn field_u32(v: u32, shift: u32, mask: u32) -> u32 {
    (v >> shift) & mask
}

/// `v` with the bits selected by `mask << shift` replaced by `x`.
pub open spec fn with_field_u32(v: u32, shift: u32, mask: u32, x: u32) -> u32 {
    (v & !(mask << shift)) | ((x & mask) << shift)
}

/// The fields that this module reads fit their widths.
proof fn lemma_field_bounds(v: u32)
    by (bit_vector)
    ensures
        v >> 24u32 < 256,
        v & 0xFF < 256,
        (v >> 0u32) & 0xFF < 256,
        (v >> 8u32) & 0b111 < 8,
        (v >> 11u32) & 1 < 2,
        (v >> 12u32) & 1 < 2,
        (v >> 14u32) & 1 < 2,
        (v >> 15u32) & 1 < 2,
        (v >> 18u32) & 0b11 < 4,
{
}

fn set_field_u32(v: u32, shift: u32, mask: u32, x: u32) -> (r: u32)
    requires
        shift < 32,
    ensures
        r == with_field_u32(v, shift, mask, x),
{
    (v & !(mask << shift)) | ((x & mask) << shift)
}

#[derive(Debug, Clone, Copy, PartialEq, Eq, Structural)]
pub struct ProcessorID(pub u8);

/// The local APIC ID register: the APIC's ID in bits 24 to 31.
#[derive(Debug, Clone, Copy, PartialEq, Eq, Structural)]
pub struct APICIdRegister(pub u32);

impl APICIdRegister {
    pub fn id(self) -> (r: u8)
        ensures
            r == self.0 >> 24u32,
    {
        let raw = self.0;
        proof {
            lemma_field_bounds(raw);
        }
        (raw >> 24u32) as u8
    }
}

/// The spurious interrupt vector register: the vector in bits 0 to 7, then
/// the APIC software enable bit (8), focus processor checking (9) and EOI
/// broadcast suppression (12).
#[derive(Debug, Clone, Copy, PartialEq, Eq, Structural)]
pub struct SpuriousInterruptVector(pub u32);

impl SpuriousInterruptVector {
    pub fn vector(self) -> (r: u8)
        ensures
            r == self.0 & 0xFF,
    {
        let raw = self.0;
        proof {
            lemma_field_bounds(raw);
        }
        (raw & 0xFF) as u8
    }

    pub fn apic_enabled(self) -> (r: bool)
        ensures
            r == (field_u32(self.0, 8, 1) == 1),
    {
        (self.0 >> 8u32) & 1 == 1
    }

    pub fn set_vector(&mut self, vector: u8)
        ensures
            final(self).0 == with_field_u32(old(self).0, 0, 0xFF, vector as u32),
    {
        self.0 = set_field_u32(self.0, 0, 0xFF, vector as u32);
    }

    pub fn set_apic_enabled(&mut self, enabled: bool)
        ensures
            final(self).0 == with_field_u32(old(self).0, 8, 1, if enabled { 1 } else { 0 }),
    {
        self.0 = set_field_u32(self.0, 8, 1, if enabled { 1 } else { 0 });
    }
}

/// What a local APIC's registers hold, as far as this kernel changes them.
#[derive(Debug, Clone, Copy)]
pub struct LocalAPIC {
    pub spurious_interrupt_vector: SpuriousInterruptVector,
}

impl LocalAPIC {
    /// Enables the APIC: points spurious interrupts at
    /// `SPURIOUS_INTERRUPT_VECTOR_INDEX` and sets the software enable bit,
    /// leaving the other bits of the register as they were.
    pub fn enable(&mut self)
        ensures
            final(self).spurious_interrupt_vector.vector_spec() == SPURIOUS_INTERRUPT_VECTOR_INDEX,
            final(self).spurious_interrupt_vector.enabled_spec(),
            forall|b: u32|
                b < 32 && b != 8 && !(b < 8) ==> field_u32(final(self).spurious_interrupt_vector.0, b, 1)
                    == field_u32(old(self).spurious_interrupt_vector.0, b, 1),
    {
        let before = self.spurious_interrupt_vector.0;
        self.spurious_interrupt_vector.set_vector(SPURIOUS_INTERRUPT_VECTOR_INDEX);
        self.spurious_interrupt_vector.set_apic_enabled(true);
        let after = self.spurious_interrupt_vector.0;
        assert(after & 0xFF == 0xFF && (after >> 8u32) & 1 == 1 && forall|b: u32|
            b < 32 && b != 8 && !(b < 8) ==> #[trigger] ((after >> b) & 1) == (before >> b) & 1)
            by (bit_vector)
            requires
                after == (((before & !(0xFFu32 << 0u32)) | ((0xFFu32 & 0xFFu32) << 0u32)) & !(1u32 << 8u32))
                    | ((1u32 & 1u32) << 8u32),
        ;
    }
}

impl SpuriousInterruptVector {
    pub open spec fn vector_spec(self) -> u32 {
        self.0 & 0xFF
    }

    pub open spec fn enabled_spec(self) -> bool {
        (self.0 >> 8u32) & 1 == 1
    }
}

#[derive(Debug, Clone, Copy, PartialEq, Eq, Structural)]
pub enum InterruptCommandDeliveryMode {
    Fixed,
    LowestPriority1,
    SMI,
    Reserved1,
    NMI,
    INIT,
    StartUp,
    Reserved2,
}

/// The number of a delivery mode in the interrupt command register.
pub open spec fn delivery_mode_bits(m: InterruptCommandDeliveryMode) -> u32 {
    match m {
        InterruptCommandDeliveryMode::Fixed => 0b000,
        InterruptCommandDeliveryMode::LowestPriority1 => 0b001,
        InterruptCommandDeliveryMode::SMI => 0b010,
        InterruptCommandDeliveryMode::Reserved1 => 0b011,
        InterruptCommandDeliveryMode::NMI => 0b100,
        InterruptCommandDeliveryMode::INIT => 0b101,
        InterruptCommandDeliveryMode::StartUp => 0b110,
        InterruptCommandDeliveryMode::Reserved2 => 0b111,
    }
}

impl InterruptCommandDeliveryMode {
    /// The delivery mode numbered `value`; every 3-bit value names one.
    pub fn from_u32(value: u32) -> (r: InterruptCommandDeliveryMode)
        requires
            value < 8,
        ensures
            delivery_mode_bits(r) == value,
    {
        match value {
            0 => InterruptCommandDeliveryMode::Fixed,
            1 => InterruptCommandDeliveryMode::LowestPriority1,
            2 => InterruptCommandDeliveryMode::SMI,
            3 => InterruptCommandDeliveryMode::Reserved1,
            4 => InterruptCommandDeliveryMode::NMI,
            5 => InterruptCommandDeliveryMode::INIT,
            6 => InterruptCommandDeliveryMode::StartUp,
            _ => InterruptCommandDeliveryMode::Reserved2,
        }
    }

    pub fn as_u32(self) -> (r: u32)
        ensures
            r == delivery_mode_bits(self),
    {
        match self {
            InterruptCommandDeliveryMode::Fixed => 0b000,
            InterruptCommandDeliveryMode::LowestPriority1 => 0b001,
            InterruptCommandDeliveryMode::SMI => 0b010,
            InterruptCommandDeliveryMode::Reserved1 => 0b011,
            InterruptCommandDeliveryMode::NMI => 0b100,
            InterruptCommandDeliveryMode::INIT => 0b101,
            InterruptCommandDeliveryMode::StartUp => 0b110,
            InterruptCommandDeliveryMode::Reserved2 => 0b111,
        }
    }
}

#[derive(Debug, Clone, Copy, PartialEq, Eq, Structural)]
pub enum InterruptCommandDestinationMode {
    Physical,
    Logical,
}

impl InterruptCommandDestinationMode {
    pub fn from_u32(value: u32) -> (r: InterruptCommandDestinationMode)
        requires
            value < 2,
        ensures
            r.as_u32_spec() == value,
    {
        if value == 0 {
            InterruptCommandDestinationMode::Physical
        } else {
            InterruptCommandDestinationMode::Logical
        }
    }

    pub open spec fn as_u32_spec(self) -> u32 {
        match self {
            InterruptCommandDestinationMode::Physical => 0,
            InterruptCommandDestinationMode::Logical => 1,
        }
    }

    pub fn as_u32(self) -> (r: u32)
        ensures
            r == self.as_u32_spec(),
    {
        match self {
            InterruptCommandDestinationMode::Physical => 0,
            InterruptCommandDestinationMode::Logical => 1,
        }
    }
}

#[derive(Debug, Clone, Copy, PartialEq, Eq, Structural)]
pub enum InterruptCommandDeliveryStatus {
    Idle,
    Pending,
}

impl InterruptCommandDeliveryStatus {
    pub fn from_u32(value: u32) -> (r: InterruptCommandDeliveryStatus)
        requires
            value < 2,
        ensures
            r.as_u32_spec() == value,
    {
        if value == 0 {
            InterruptCommandDeliveryStatus::Idle
        } else {
            InterruptCommandDeliveryStatus::Pending
        }
    }

    pub open spec fn as_u32_spec(self) -> u32 {
        match self {
            InterruptCommandDeliveryStatus::Idle => 0,
            InterruptCommandDeliveryStatus::Pending => 1,
        }
    }

    pub fn as_u32(self) -> (r: u32)
        ensures
            r == self.as_u32_spec(),
    {
        match self {
            InterruptCommandDeliveryStatus::Idle => 0,
            InterruptCommandDeliveryStatus::Pending => 1,
        }
    }
}

#[derive(Debug, Clone, Copy, PartialEq, Eq, Structural)]
pub enum InterruptCommandLevel {
    DeAssert,
    Assert,
}

impl InterruptCommandLevel {
    pub fn from_u32(value: u32) -> (r: InterruptCommandLevel)
        requires
            value < 2,
        ensures
            r.as_u32_spec() == value,
    {
        if value == 0 {
            InterruptCommandLevel::DeAssert
        } else {
            InterruptCommandLevel::Assert
        }
    }

    pub open spec fn as_u32_spec(self) -> u32 {
        match self {
            InterruptCommandLevel::DeAssert => 0,
            InterruptCommandLevel::Assert => 1,
        }
    }

    pub fn as_u32(self) -> (r: u32)
        ensures
            r == self.as_u32_spec(),
    {
        match self {
            InterruptCommandLevel::DeAssert => 0,
            InterruptCommandLevel::Assert => 1,
        }
    }
}

#[derive(Debug, Clone, Copy, PartialEq, Eq, Structural)]
pub enum InterruptCommandTriggerMode {
    Edge,
    Level,
}

impl InterruptCommandTriggerMode {
    pub fn from_u32(value: u32) -> (r: InterruptCommandTriggerMode)
        requires
            value < 2,
        ensures
            r.as_u32_spec() == value,
    {
        if value == 0 {
            InterruptCommandTriggerMode::Edge
        } else {
            InterruptCommandTriggerMode::Level
        }
    }

    pub open spec fn as_u32_spec(self) -> u32 {
        match self {
            InterruptCommandTriggerMode::Edge => 0,
            InterruptCommandTriggerMode::Level => 1,
        }
    }

    pub fn as_u32(self) -> (r: u32)
        ensures
            r == self.as_u32_spec(),
    {
        match self {
            InterruptCommandTriggerMode::Edge => 0,
            InterruptCommandTriggerMode::Level => 1,
        }
    }
}

#[derive(Debug, Clone, Copy, PartialEq, Eq, Structural)]
pub enum InterruptCommandDestinationShorthand {
    NoShorthand,
    DestSelf,
    AllIncludingSelf,
    AllExcludingSelf,
}

impl InterruptCommandDestinationShorthand {
    pub fn from_u32(value: u32) -> (r: InterruptCommandDestinationShorthand)
        requires
            value < 4,
        ensures
            r.as_u32_spec() == value,
    {
        match value {
            0 => InterruptCommandDestinationShorthand::NoShorthand,
            1 => InterruptCommandDestinationShorthand::DestSelf,
            2 => InterruptCommandDestinationShorthand::AllIncludingSelf,
            _ => InterruptCommandDestinationShorthand::AllExcludingSelf,
        }
    }

    pub open spec fn as_u32_spec(self) -> u32 {
        match self {
            InterruptCommandDestinationShorthand::NoShorthand => 0b00,
            InterruptCommandDestinationShorthand::DestSelf => 0b01,
            InterruptCommandDestinationShorthand::AllIncludingSelf => 0b10,
            InterruptCommandDestinationShorthand::AllExcludingSelf => 0b11,
        }
    }

    pub fn as_u32(self) -> (r: u32)
        ensures
            r == self.as_u32_spec(),
    {
        match self {
            InterruptCommandDestinationShorthand::NoShorthand => 0b00,
            InterruptCommandDestinationShorthand::DestSelf => 0b01,
            InterruptCommandDestinationShorthand::AllIncludingSelf => 0b10,
            InterruptCommandDestinationShorthand::AllExcludingSelf => 0b11,
        }
    }
}

/// The low half of the interrupt command register: vector (bits 0 to 7),
/// delivery mode (8 to 10), destination mode (11), delivery status (12),
/// level (14), trigger mode (15) and destination shorthand (18 and 19).
#[derive(Debug, Clone, Copy, PartialEq, Eq, Structural)]
pub struct InterruptCommandLowBits(pub u32);

impl InterruptCommandLowBits {
    pub fn new() -> (r: InterruptCommandLowBits)
        ensures
            r.0 == 0,
    {
        InterruptCommandLowBits(0)
    }

    pub fn vector(self) -> (r: u8)
        ensures
            r == field_u32(self.0, 0, 0xFF),
    {
        let raw = self.0;
        proof {
            lemma_field_bounds(raw);
        }
        ((raw >> 0u32) & 0xFF) as u8
    }

    pub fn delivery_mode(self) -> (r: InterruptCommandDeliveryMode)
        ensures
            delivery_mode_bits(r) == field_u32(self.0, 8, 0b111),
    {
        let raw = self.0;
        proof {
            lemma_field_bounds(raw);
        }
        InterruptCommandDeliveryMode::from_u32((raw >> 8u32) & 0b111)
    }

    pub fn destination_mode(self) -> (r: InterruptCommandDestinationMode)
        ensures
            r.as_u32_spec() == field_u32(self.0, 11, 1),
    {
        let raw = self.0;
        proof {
            lemma_field_bounds(raw);
        }
        InterruptCommandDestinationMode::from_u32((raw >> 11u32) & 1)
    }

    pub fn delivery_status(self) -> (r: InterruptCommandDeliveryStatus)
        ensures
            r.as_u32_spec() == field_u32(self.0, 12, 1),
    {
        let raw = self.0;
        proof {
            lemma_field_bounds(raw);
        }
        InterruptCommandDeliveryStatus::from_u32((raw >> 12u32) & 1)
    }

    pub fn level(self) -> (r: InterruptCommandLevel)
        ensures
            r.as_u32_spec() == field_u32(self.0, 14, 1),
    {
        let raw = self.0;
        proof {
            lemma_field_bounds(raw);
        }
        InterruptCommandLevel::from_u32((raw >> 14u32) & 1)
    }

    pub fn trigger_mode(self) -> (r: InterruptCommandTriggerMode)
        ensures
            r.as_u32_spec() == field_u32(self.0, 15, 1),
    {
        let raw = self.0;
        proof {
            lemma_field_bounds(raw);
        }
        InterruptCommandTriggerMode::from_u32((raw >> 15u32) & 1)
    }

    pub fn destination_shorthand(self) -> (r: InterruptCommandDestinationShorthand)
        ensures
            r.as_u32_spec() == field_u32(self.0, 18, 0b11),
    {
        let raw = self.0;
        proof {
            lemma_field_bounds(raw);
        }
        InterruptCommandDestinationShorthand::from_u32((raw >> 18u32) & 0b11)
    }

    pub fn with_vector(self, vector: u8) -> (r: InterruptCommandLowBits)
        ensures
            r.0 == with_field_u32(self.0, 0, 0xFF, vector as u32),
    {
        InterruptCommandLowBits(set_field_u32(self.0, 0, 0xFF, vector as u32))
    }

    pub fn with_delivery_mode(self, mode: InterruptCommandDeliveryMode) -> (r: InterruptCommandLowBits)
        ensures
            r.0 == with_field_u32(self.0, 8, 0b111, delivery_mode_bits(mode)),
    {
        InterruptCommandLowBits(set_field_u32(self.0, 8, 0b111, mode.as_u32()))
    }

    pub fn with_destination_mode(self, mode: InterruptCommandDestinationMode) -> (r: InterruptCommandLowBits)
        ensures
            r.0 == with_field_u32(self.0, 11, 1, mode.as_u32_spec()),
    {
        InterruptCommandLowBits(set_field_u32(self.0, 11, 1, mode.as_u32()))
    }

    pub fn with_level(self, level: InterruptCommandLevel) -> (r: InterruptCommandLowBits)
        ensures
            r.0 == with_field_u32(self.0, 14, 1, level.as_u32_spec()),
    {
        InterruptCommandLowBits(set_field_u32(self.0, 14, 1, level.as_u32()))
    }

    pub fn with_destination_shorthand(self, shorthand: InterruptCommandDestinationShorthand) -> (r: InterruptCommandLowBits)
        ensures
            r.0 == with_field_u32(self.0, 18, 0b11, shorthand.as_u32_spec()),
    {
        InterruptCommandLowBits(set_field_u32(self.0, 18, 0b11, shorthand.as_u32()))
    }
}

/// The command that sends interrupt `vector` to every CPU, this one
/// included: fixed delivery, logical destination, level asserted, to all
/// CPUs including self.
pub fn all_cpus_ipi_command(vector: u8) -> (r: InterruptCommandLowBits)
    ensures
        r.0 == (vector as u32) | (1u32 << 11u32) | (1u32 << 14u32) | (2u32 << 18u32),
{
    let r = InterruptCommandLowBits::new().with_delivery_mode(InterruptCommandDeliveryMode::Fixed).with_destination_mode(
        InterruptCommandDestinationMode::Logical,
    ).with_destination_shorthand(InterruptCommandDestinationShorthand::AllIncludingSelf).with_level(
        InterruptCommandLevel::Assert,
    ).with_vector(vector);
    let v = vector as u32;
    let raw = r.0;
    assert(raw == v | (1u32 << 11u32) | (1u32 << 14u32) | (2u32 << 18u32)) by (bit_vector)
        requires
            v < 256,
            raw == with_field_u32(
                with_field_u32(
                    with_field_u32(
                        with_field_u32(with_field_u32(0, 8, 0b111, 0), 11, 1, 1),
                        18,
                        0b11,
                        2,
                    ),
                    14,
                    1,
                    1,
                ),
                0,
                0xFF,
                v,
            ),
    ;
    r
}

/// The inter-processor interrupt command for all CPUs reads back as what it
/// was built from.
pub proof fn lemma_all_cpus_ipi_command_fields(vector: u8)
    ensures
        ({
            let raw = (vector as u32) | (1u32 << 11u32) | (1u32 << 14u32) | (2u32 << 18u32);
            &&& field_u32(raw, 0, 0xFF) == vector
            &&& field_u32(raw, 8, 0b111) == delivery_mode_bits(InterruptCommandDeliveryMode::Fixed)
            &&& field_u32(raw, 11, 1) == InterruptCommandDestinationMode::Logical.as_u32_spec()
            &&& field_u32(raw, 12, 1) == InterruptCommandDeliveryStatus::Idle.as_u32_spec()
            &&& field_u32(raw, 14, 1) == InterruptCommandLevel::Assert.as_u32_spec()
            &&& field_u32(raw, 15, 1) == InterruptCommandTriggerMode::Edge.as_u32_spec()
            &&& field_u32(raw, 18, 0b11) == InterruptCommandDestinationShorthand::AllIncludingSelf.as_u32_spec()
        }),
{
    let v = vector as u32;
    assert({
        let raw = v | (1u32 << 11u32) | (1u32 << 14u32) | (2u32 << 18u32);
        &&& field_u32(raw, 0, 0xFF) == v
        &&& field_u32(raw, 8, 0b111) == 0
        &&& field_u32(raw, 11, 1) == 1
        &&& field_u32(raw, 12, 1) == 0
        &&& field_u32(raw, 14, 1) == 1
        &&& field_u32(raw, 15, 1) == 0
        &&& field_u32(raw, 18, 0b11) == 2
    }) by (bit_vector)
        requires
            v < 256,
    ;
}

/// The high half of the interrupt command register: the destination in
/// bits 24 to 31.
#[derive(Debug, Clone, Copy, PartialEq, Eq, Structural)]
pub struct InterruptCommandHighBits(pub u32);

impl InterruptCommandHighBits {
    pub fn destination(self) -> (r: u8)
        ensures
            r == self.0 >> 24u32,
    {
        let raw = self.0;
        proof {
            lemma_field_bounds(raw);
        }
        (raw >> 24u32) as u8
    }
}

} // verus!
