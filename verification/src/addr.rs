//! Addressing on the PCI configuration mechanism.
//!
//! A function on the bus is named by a BDF triple (bus, device, function),
//! packed into sixteen bits as `(bus << 8) | (device << 3) | function`. A
//! register of that function is selected by writing
//! `0x8000_0000 | (bdf << 8) | (register << 2)` to the configuration address
//! port; the data port then answers with that register's value.

use vstd::prelude::*;

verus! {

/// Bit that must be set in a selection address for the data port to respond.
pub const CONFIG_ENABLE: u32 = 0x8000_0000;

/// The value the data port returns where no device responds: a real device
/// never answers all-ones for its vendor/device identifier pair.
pub const NOT_PRESENT: u32 = 0xffff_ffff;

/// Number of packed BDF addresses: 256 buses, 32 devices, 8 functions.
pub const BDF_COUNT: u32 = 65536;

/// Pack a BDF triple into its 16-bit address.
pub fn pack_bdf(bus: u16, device: u16, function: u16) -> (bdf: u16)
    requires
        bus < 256,
        device < 32,
        function < 8,
    ensures
        bdf == bus * 256 + device * 8 + function,
{
    proof {
        assert((bus << 8u16) | (device << 3u16) | function
            == bus * 256 + device * 8 + function) by (bit_vector)
            requires
                bus < 256,
                device < 32,
                function < 8,
        ;
    }
    (bus << 8u16) | (device << 3u16) | function
}

/// The selection address for one register of one function.
pub open spec fn spec_sel_addr(bdf: u16, register: u16) -> u32 {
    CONFIG_ENABLE | ((bdf as u32) << 8u32) | ((register as u32) << 2u32)
}

/// The BDF a selection address names: bits 8 to 23.
pub open spec fn spec_addr_bdf(a: u32) -> u16 {
    ((a >> 8u32) & 0xffff) as u16
}

/// The register index a selection address names: bits 2 to 7.
pub open spec fn spec_addr_register(a: u32) -> u16 {
    ((a >> 2u32) & 0x3f) as u16
}

/// Whether a selection address has the enable bit set.
pub open spec fn spec_addr_enabled(a: u32) -> bool {
    a & CONFIG_ENABLE != 0
}

/// Selecting a register and reading the address back are inverse to one
/// another: the mechanism loses nothing of a well-formed selection.
pub proof fn lemma_sel_addr_roundtrip(bdf: u16, register: u16)
    requires
        register < 64,
    ensures
        spec_addr_bdf(spec_sel_addr(bdf, register)) == bdf,
        spec_addr_register(spec_sel_addr(bdf, register)) == register,
        spec_addr_enabled(spec_sel_addr(bdf, register)),
{
    let a = spec_sel_addr(bdf, register);
    assert(((0x8000_0000u32 | ((bdf as u32) << 8u32) | ((register as u32) << 2u32)) >> 8u32)
            & 0xffff == bdf as u32) by (bit_vector)
        requires
            register < 64,
    ;
    assert(((0x8000_0000u32 | ((bdf as u32) << 8u32) | ((register as u32) << 2u32)) >> 2u32)
            & 0x3f == register as u32) by (bit_vector)
        requires
            register < 64,
    ;
    assert((0x8000_0000u32 | ((bdf as u32) << 8u32) | ((register as u32) << 2u32))
            & 0x8000_0000u32 != 0) by (bit_vector);
}

/// Compose the selection address for one register of one function, as it is
/// written to the configuration address port.
pub fn selection_address(bdf: u16, register: u16) -> (a: u32)
    requires
        register < 64,
    ensures
        a == spec_sel_addr(bdf, register),
        a == 0x8000_0000u32 + (bdf as u32) * 256 + (register as u32) * 4,
{
    proof {
        assert(0x8000_0000u32 | ((bdf as u32) << 8u32) | ((register as u32) << 2u32)
            == 0x8000_0000u32 + (bdf as u32) * 256 + (register as u32) * 4) by (bit_vector)
            requires
                register < 64,
        ;
    }
    CONFIG_ENABLE | ((bdf as u32) << 8u32) | ((register as u32) << 2u32)
}

/// Read the BDF out of a selection address.
pub fn decode_bdf(a: u32) -> (bdf: u16)
    ensures
        bdf == spec_addr_bdf(a),
{
    proof {
        assert((a >> 8u32) & 0xffff < 0x10000) by (bit_vector);
    }
    ((a >> 8u32) & 0xffff) as u16
}

/// Read the register index out of a selection address.
pub fn decode_register(a: u32) -> (register: u16)
    ensures
        register == spec_addr_register(a),
        register < 64,
{
    proof {
        assert((a >> 2u32) & 0x3f < 64) by (bit_vector);
    }
    ((a >> 2u32) & 0x3f) as u16
}

} // verus!
