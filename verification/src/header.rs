//! Typed views of configuration space registers.
//!
//! The 16 registers of a function's configuration block are read as raw
//! 32-bit words; the words are then taken apart, in the platform's
//! little-endian byte order, into the common header and the standard device
//! layout. The low seven bits of `header_type` tell a standard device
//! (zero) apart from a bridge or any other layout (nonzero); only standard
//! devices are parsed further or offered to drivers.

use vstd::prelude::*;

verus! {

/// Mask that strips the multi-function marker (bit 7) off `header_type`;
/// what remains distinguishes a standard device (zero) from a bridge or any
/// other layout (nonzero).
pub const HEADER_TYPE_MASK: u8 = 0x7f;

/// The width a base address register decodes to.
#[derive(Clone, Copy, PartialEq, Eq, Structural, Debug)]
pub enum BarType {
    /// A 32-bit BAR.
    Bits32,
    /// A 64-bit BAR.
    Bits64,
}

impl BarType {
    /// What a two-bit BAR type field decodes to: zero is a 32-bit BAR, two
    /// is a 64-bit BAR, and anything else is a fault of the device or of
    /// the decoder — there is no BAR shape to continue with.
    pub open spec fn spec_of_bits(bits: u32) -> Option<BarType> {
        if bits == 0 {
            Some(BarType::Bits32)
        } else if bits == 2 {
            Some(BarType::Bits64)
        } else {
            None
        }
    }

    /// Decode a two-bit BAR type field; `None` is the fatal case, which a
    /// caller must treat as unrecoverable.
    pub fn try_from_bits(bits: u32) -> (r: Option<BarType>)
        ensures
            r == BarType::spec_of_bits(bits),
    {
        if bits == 0 {
            Some(BarType::Bits32)
        } else if bits == 2 {
            Some(BarType::Bits64)
        } else {
            None
        }
    }

    /// Decode a BAR type field known to be well formed; the two faulting
    /// bit patterns are excluded up front, so this cannot fail.
    pub fn from(val: u32) -> (r: BarType)
        requires
            val == 0 || val == 2,
        ensures
            Some(r) == BarType::spec_of_bits(val),
    {
        if val == 0 {
            BarType::Bits32
        } else {
            BarType::Bits64
        }
    }

    /// Decode the type field, bits 1 and 2, out of a raw BAR register.
    pub fn from_bar(raw: u32) -> (r: Option<BarType>)
        ensures
            r == BarType::spec_of_bits(((raw >> 1u32) & 3) as u32),
    {
        proof {
            assert((raw >> 1u32) & 3 < 4) by (bit_vector);
        }
        BarType::try_from_bits((raw >> 1u32) & 3)
    }
}

/// The common header: the first four registers of any function's
/// configuration block, shared by devices and bridges alike.
#[derive(Clone, Copy, PartialEq, Eq, Structural, Debug)]
pub struct PciHeader {
    pub vendor_id: u16,
    pub device_id: u16,
    pub command: u16,
    pub status: u16,
    pub revision: u8,
    pub prog_if: u8,
    pub subclass: u8,
    pub class: u8,
    pub cache_line_size: u8,
    pub latency_timer: u8,
    pub header_type: u8,
    pub bist: u8,
}

/// The common header carried by the first four configuration words, fields
/// packed at their natural little-endian byte offsets.
pub open spec fn spec_header_from_words(w: Seq<u32>) -> PciHeader
    recommends
        w.len() >= 4,
{
    PciHeader {
        vendor_id: (w[0] & 0xffff) as u16,
        device_id: (w[0] >> 16u32) as u16,
        command: (w[1] & 0xffff) as u16,
        status: (w[1] >> 16u32) as u16,
        revision: (w[2] & 0xff) as u8,
        prog_if: ((w[2] >> 8u32) & 0xff) as u8,
        subclass: ((w[2] >> 16u32) & 0xff) as u8,
        class: (w[2] >> 24u32) as u8,
        cache_line_size: (w[3] & 0xff) as u8,
        latency_timer: ((w[3] >> 8u32) & 0xff) as u8,
        header_type: ((w[3] >> 16u32) & 0xff) as u8,
        bist: (w[3] >> 24u32) as u8,
    }
}

/// Every byte-sized or halfword-sized part of a 32-bit word fits its
/// destination field.
proof fn lemma_word_parts(x: u32)
    by (bit_vector)
    ensures
        x & 0xffff < 0x10000,
        x >> 16u32 < 0x10000,
        x & 0xff < 0x100,
        (x >> 8u32) & 0xff < 0x100,
        (x >> 16u32) & 0xff < 0x100,
        x >> 24u32 < 0x100,
{
}

impl PciHeader {
    /// Take the common header apart from its four raw registers.
    pub fn from_words(w: &Vec<u32>) -> (h: PciHeader)
        requires
            w@.len() >= 4,
        ensures
            h == spec_header_from_words(w@),
    {
        proof {
            lemma_word_parts(w@[0]);
            lemma_word_parts(w@[1]);
            lemma_word_parts(w@[2]);
            lemma_word_parts(w@[3]);
        }
        PciHeader {
            vendor_id: (w[0] & 0xffff) as u16,
            device_id: (w[0] >> 16u32) as u16,
            command: (w[1] & 0xffff) as u16,
            status: (w[1] >> 16u32) as u16,
            revision: (w[2] & 0xff) as u8,
            prog_if: ((w[2] >> 8u32) & 0xff) as u8,
            subclass: ((w[2] >> 16u32) & 0xff) as u8,
            class: (w[2] >> 24u32) as u8,
            cache_line_size: (w[3] & 0xff) as u8,
            latency_timer: ((w[3] >> 8u32) & 0xff) as u8,
            header_type: ((w[3] >> 16u32) & 0xff) as u8,
            bist: (w[3] >> 24u32) as u8,
        }
    }

    /// Whether this function uses the standard device layout: the low seven
    /// bits of `header_type` are zero. Bridges and every other layout are
    /// filtered out by this test.
    pub fn is_standard(&self) -> (r: bool)
        ensures
            r == (self.header_type & HEADER_TYPE_MASK == 0),
    {
        self.header_type & HEADER_TYPE_MASK == 0
    }
}

/// The standard device layout: the common header followed by the BARs,
/// subsystem identifiers, expansion ROM address, capabilities pointer and
/// interrupt routing, sixteen registers in all.
#[derive(Clone, Copy, Debug)]
pub struct PciDevice {
    /// The common header, registers zero to three.
    pub header: PciHeader,
    pub bar0: u32,
    pub bar1: u32,
    pub bar2: u32,
    pub bar3: u32,
    pub bar4: u32,
    pub bar5: u32,
    pub cardbus_cis_pointer: u32,
    pub subsystem_vendor_id: u16,
    pub subsystem_device_id: u16,
    pub expansion_rom_address: u32,
    pub capabilities: u8,
    pub reserved: [u8; 7],
    pub interrupt_line: u8,
    pub interrupt_pin: u8,
    pub min_grant: u8,
    pub max_latency: u8,
}

/// The standard device layout carried by sixteen configuration words,
/// fields packed at their natural little-endian byte offsets.
pub open spec fn spec_device_from_words(w: Seq<u32>) -> PciDevice
    recommends
        w.len() >= 16,
{
    PciDevice {
        header: spec_header_from_words(w),
        bar0: w[4],
        bar1: w[5],
        bar2: w[6],
        bar3: w[7],
        bar4: w[8],
        bar5: w[9],
        cardbus_cis_pointer: w[10],
        subsystem_vendor_id: (w[11] & 0xffff) as u16,
        subsystem_device_id: (w[11] >> 16u32) as u16,
        expansion_rom_address: w[12],
        capabilities: (w[13] & 0xff) as u8,
        reserved: [
            ((w[13] >> 8u32) & 0xff) as u8,
            ((w[13] >> 16u32) & 0xff) as u8,
            (w[13] >> 24u32) as u8,
            (w[14] & 0xff) as u8,
            ((w[14] >> 8u32) & 0xff) as u8,
            ((w[14] >> 16u32) & 0xff) as u8,
            (w[14] >> 24u32) as u8,
        ],
        interrupt_line: (w[15] & 0xff) as u8,
        interrupt_pin: ((w[15] >> 8u32) & 0xff) as u8,
        min_grant: ((w[15] >> 16u32) & 0xff) as u8,
        max_latency: (w[15] >> 24u32) as u8,
    }
}

impl PciDevice {
    /// Take the standard device layout apart from its sixteen raw
    /// registers.
    pub fn from_words(w: &Vec<u32>) -> (d: PciDevice)
        requires
            w@.len() >= 16,
        ensures
            d == spec_device_from_words(w@),
    {
        proof {
            lemma_word_parts(w@[11]);
            lemma_word_parts(w@[13]);
            lemma_word_parts(w@[14]);
            lemma_word_parts(w@[15]);
        }
        let header = PciHeader::from_words(w);
        PciDevice {
            header,
            bar0: w[4],
            bar1: w[5],
            bar2: w[6],
            bar3: w[7],
            bar4: w[8],
            bar5: w[9],
            cardbus_cis_pointer: w[10],
            subsystem_vendor_id: (w[11] & 0xffff) as u16,
            subsystem_device_id: (w[11] >> 16u32) as u16,
            expansion_rom_address: w[12],
            capabilities: (w[13] & 0xff) as u8,
            reserved: [
                ((w[13] >> 8u32) & 0xff) as u8,
                ((w[13] >> 16u32) & 0xff) as u8,
                (w[13] >> 24u32) as u8,
                (w[14] & 0xff) as u8,
                ((w[14] >> 8u32) & 0xff) as u8,
                ((w[14] >> 16u32) & 0xff) as u8,
                (w[14] >> 24u32) as u8,
            ],
            interrupt_line: (w[15] & 0xff) as u8,
            interrupt_pin: ((w[15] >> 8u32) & 0xff) as u8,
            min_grant: ((w[15] >> 16u32) & 0xff) as u8,
            max_latency: (w[15] >> 24u32) as u8,
        }
    }
}

} // verus!
