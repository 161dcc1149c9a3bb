//! The PCI configuration mechanism as an explicit value.
//!
//! Hardware exposes configuration space through two ports: a selection
//! address written to the address port chooses one register of one function,
//! and the data port then answers with that register's value, or with the
//! all-ones sentinel where no function responds. [`ConfigSpace`] carries the
//! currently selected address and the register files of the functions that
//! respond, so that the windowed-access protocol itself is verified code.

use vstd::prelude::*;
use crate::addr::{
    decode_bdf, decode_register, selection_address, spec_addr_bdf, spec_addr_enabled,
    spec_addr_register, spec_sel_addr, CONFIG_ENABLE, NOT_PRESENT,
};
use crate::addr::lemma_sel_addr_roundtrip;

verus! {

/// Number of 32-bit registers of one function's configuration block read
/// here: the 16-register header and device layout.
pub const FUNCTION_REGS: usize = 16;

/// The register file of one responding function.
pub struct DeviceRegs {
    /// The packed BDF address the function answers at.
    pub bdf: u16,
    /// The register values, one 32-bit word per register index.
    pub regs: Vec<u32>,
}

/// The configuration mechanism: the selected address and the functions that
/// respond. Reading never changes the register files, only the selection.
pub struct ConfigSpace {
    /// The value last written to the configuration address port.
    pub selected: u32,
    /// The register files of the responding functions, in no particular
    /// order; an address no entry answers at reads as the sentinel.
    pub devices: Vec<DeviceRegs>,
}

/// The value the data port answers for a BDF and register index: the first
/// entry holding that BDF answers from its register file, everything else is
/// the all-ones sentinel.
pub open spec fn spec_read(devices: Seq<DeviceRegs>, bdf: int, reg: int) -> u32
    decreases devices.len(),
{
    if devices.len() == 0 {
        NOT_PRESENT
    } else if devices[0].bdf as int == bdf {
        if 0 <= reg < devices[0].regs@.len() {
            devices[0].regs@[reg]
        } else {
            NOT_PRESENT
        }
    } else {
        spec_read(devices.drop_first(), bdf, reg)
    }
}

/// Whether a device responds at a packed BDF address: its first register,
/// the vendor/device identifier pair, is not the all-ones sentinel.
pub open spec fn spec_present(devices: Seq<DeviceRegs>, bdf: int) -> bool {
    spec_read(devices, bdf, 0) != NOT_PRESENT
}

impl ConfigSpace {
    /// Shape invariant: every responding function exposes the full
    /// 16-register block.
    pub open spec fn wf(self) -> bool {
        forall|i: int| 0 <= i < self.devices@.len()
            ==> (#[trigger] self.devices@[i]).regs@.len() == FUNCTION_REGS
    }

    /// A mechanism with no responding function: every read answers the
    /// sentinel.
    pub fn new() -> (s: ConfigSpace)
        ensures
            s.wf(),
            s.devices@.len() == 0,
    {
        ConfigSpace { selected: 0, devices: Vec::new() }
    }

    /// Attach one responding function.
    pub fn push_device(&mut self, bdf: u16, regs: Vec<u32>)
        requires
            old(self).wf(),
            regs@.len() == FUNCTION_REGS,
        ensures
            final(self).wf(),
            final(self).devices@ =~= old(self).devices@.push(DeviceRegs { bdf, regs: regs }),
    {
        self.devices.push(DeviceRegs { bdf, regs });
    }

    /// Write the configuration address port: selects a register, changes
    /// nothing else.
    pub fn write_address(&mut self, a: u32)
        ensures
            final(self).selected == a,
            final(self).devices == old(self).devices,
    {
        self.selected = a;
    }

    /// Read the configuration data port: answers for the selected register,
    /// or the sentinel where the enable bit is clear or nothing responds.
    pub fn read_data(&self) -> (val: u32)
        requires
            self.wf(),
        ensures
            val == (if spec_addr_enabled(self.selected) {
                spec_read(
                    self.devices@,
                    spec_addr_bdf(self.selected) as int,
                    spec_addr_register(self.selected) as int,
                )
            } else {
                NOT_PRESENT
            }),
    {
        if self.selected & CONFIG_ENABLE == 0 {
            return NOT_PRESENT;
        }
        let bdf = decode_bdf(self.selected);
        let reg = decode_register(self.selected);
        let mut i: usize = 0;
        proof {
            assert(self.devices@.skip(0) =~= self.devices@);
        }
        while i < self.devices.len()
            invariant
                self.wf(),
                i <= self.devices@.len(),
                bdf == spec_addr_bdf(self.selected),
                reg == spec_addr_register(self.selected),
                spec_addr_enabled(self.selected),
                spec_read(self.devices@, bdf as int, reg as int)
                    == spec_read(self.devices@.skip(i as int), bdf as int, reg as int),
            decreases self.devices@.len() - i,
        {
            let entry_bdf = self.devices[i].bdf;
            if entry_bdf == bdf {
                proof {
                    assert(self.devices@.skip(i as int)[0] == self.devices@[i as int]);
                }
                let r: u32 = if (reg as usize) < self.devices[i].regs.len() {
                    self.devices[i].regs[reg as usize]
                } else {
                    NOT_PRESENT
                };
                proof {
                    let s = self.devices@.skip(i as int);
                    assert(s.len() > 0);
                    assert(s[0].bdf as int == bdf as int);
                    if 0 <= (reg as int) && (reg as int) < s[0].regs@.len() {
                        assert(spec_read(s, bdf as int, reg as int) == s[0].regs@[reg as int]);
                    } else {
                        assert(spec_read(s, bdf as int, reg as int) == NOT_PRESENT);
                    }
                }
                return r;
            }
            proof {
                assert(self.devices@.skip(i as int)[0] == self.devices@[i as int]);
                assert(self.devices@.skip(i as int).drop_first()
                    =~= self.devices@.skip(i as int + 1));
            }
            i += 1;
        }
        proof {
            assert(self.devices@.skip(i as int).len() == 0);
        }
        NOT_PRESENT
    }
}

/// Read one register of one function through the two-port mechanism: select
/// the address, then read the data port. The register files are untouched.
pub fn read_config(space: &mut ConfigSpace, bdf: u16, register: u16) -> (val: u32)
    requires
        old(space).wf(),
        register < 64,
    ensures
        final(space).wf(),
        final(space).devices == old(space).devices,
        val == spec_read(old(space).devices@, bdf as int, register as int),
{
    let a = selection_address(bdf, register);
    space.write_address(a);
    proof {
        lemma_sel_addr_roundtrip(bdf, register);
        assert(space.selected == spec_sel_addr(bdf, register));
    }
    space.read_data()
}

} // verus!
