use pci_enum::addr::{pack_bdf, selection_address};
use pci_enum::bitmap::PresenceBitmap;
use pci_enum::destroy_devices;
use pci_enum::header::{BarType, PciDevice, PciHeader};
use pci_enum::init;
use pci_enum::scan::{enumerate, read_device, read_header, record_presence};
use pci_enum::space::ConfigSpace;
use pci_enum::store::{Device, DeviceStore, StubDevice};

type Probe = fn(PciDevice) -> Option<StubDevice>;

fn std_device_regs(vendor: u16, device: u16, header_type: u8) -> Vec<u32> {
    let mut r = vec![0u32; 16];
    r[0] = ((device as u32) << 16) | (vendor as u32);
    r[2] = 0x0200_0000;
    r[3] = (header_type as u32) << 16;
    r[4] = 0xfebc_0000;
    r[11] = 0x4321_1234;
    r[15] = 0x0000_010a;
    r
}

fn probe_vendor_8086(d: PciDevice) -> Option<StubDevice> {
    if d.header.vendor_id == 0x8086 {
        Some(StubDevice::new(1))
    } else {
        None
    }
}

fn probe_always(d: PciDevice) -> Option<StubDevice> {
    Some(StubDevice::new(2 + d.header.vendor_id as u32))
}

fn probe_never(_d: PciDevice) -> Option<StubDevice> {
    None
}

#[test]
fn bdf_packing() {
    assert_eq!(pack_bdf(1, 2, 3), 0x113);
    assert_eq!(pack_bdf(0, 0, 0), 0);
    assert_eq!(pack_bdf(255, 31, 7), 0xffff);
}

#[test]
fn selection_address_encoding() {
    let bdf = pack_bdf(1, 2, 3);
    assert_eq!(selection_address(bdf, 0), 0x8001_1300);
    assert_eq!(selection_address(bdf, 4), 0x8001_1310);
    assert_eq!(selection_address(0, 0), 0x8000_0000);
}

#[test]
fn bitmap_set_and_get() {
    let mut b = PresenceBitmap::new();
    assert!(!b.get(0));
    assert!(!b.get(0x113));
    b.set(0x113);
    assert!(b.get(0x113));
    assert!(!b.get(0x112));
    assert!(!b.get(0x114));
    b.set(0xffff);
    assert!(b.get(0xffff));
    assert!(b.get(0x113));
}

#[test]
fn record_presence_follows_sentinel_rule() {
    let mut b = PresenceBitmap::new();
    record_presence(&mut b, 5, 0xffff_ffff);
    assert!(!b.get(5));
    record_presence(&mut b, 5, 0x1234_5678);
    assert!(b.get(5));
    // The sentinel never clears a bit that is already set.
    record_presence(&mut b, 5, 0xffff_ffff);
    assert!(b.get(5));
    assert!(!b.get(4));
    assert!(!b.get(6));
}

#[test]
fn sentinel_keeps_bit_clear() {
    let mut space = ConfigSpace::new();
    // A register file whose vendor/device word is the all-ones sentinel
    // reads as "not present", exactly like an address nothing answers at.
    let mut ghost_regs = vec![0u32; 16];
    ghost_regs[0] = 0xffff_ffff;
    space.push_device(0x20, ghost_regs);
    space.push_device(0x21, std_device_regs(0x8086, 0x100e, 0));
    let bm = enumerate(&mut space);
    assert!(!bm.get(0x20));
    assert!(bm.get(0x21));
    assert!(!bm.get(0x22));
}

#[test]
fn enumerate_twice_is_identical() {
    let mut space = ConfigSpace::new();
    space.push_device(0x113, std_device_regs(0x8086, 0x100e, 0));
    space.push_device(0xffff, std_device_regs(0x10ec, 0x8139, 0));
    space.push_device(0x0, std_device_regs(0x1022, 0x2000, 1));
    let b1 = enumerate(&mut space);
    let b2 = enumerate(&mut space);
    assert!(b1.same_as(&b2));
    assert!(b2.same_as(&b1));
}

#[test]
fn header_fields_decode() {
    let mut space = ConfigSpace::new();
    let mut regs = vec![0u32; 16];
    regs[0] = 0x100e_8086; // device id 0x100e, vendor id 0x8086
    regs[1] = 0x0010_0007; // status 0x0010, command 0x0007
    regs[2] = 0x0200_0013; // class 02, subclass 00, prog if 00, revision 13
    regs[3] = 0x7f80_4210; // bist 7f, header type 80, latency 42, cache line 10
    space.push_device(0x113, regs);
    let h: PciHeader = read_header(&mut space, 0x113);
    assert_eq!(h.vendor_id, 0x8086);
    assert_eq!(h.device_id, 0x100e);
    assert_eq!(h.command, 0x0007);
    assert_eq!(h.status, 0x0010);
    assert_eq!(h.revision, 0x13);
    assert_eq!(h.prog_if, 0x00);
    assert_eq!(h.subclass, 0x00);
    assert_eq!(h.class, 0x02);
    assert_eq!(h.cache_line_size, 0x10);
    assert_eq!(h.latency_timer, 0x42);
    assert_eq!(h.header_type, 0x80);
    assert_eq!(h.bist, 0x7f);
    // Bit 7 of header_type is only the multi-function marker: this is
    // still a standard device.
    assert!(h.is_standard());
}

#[test]
fn absent_address_reads_all_ones_header() {
    let mut space = ConfigSpace::new();
    let h = read_header(&mut space, 0x55);
    assert_eq!(h.vendor_id, 0xffff);
    assert_eq!(h.device_id, 0xffff);
    assert_eq!(h.header_type, 0xff);
}

#[test]
fn device_fields_decode() {
    let mut space = ConfigSpace::new();
    let mut regs = vec![0u32; 16];
    regs[0] = 0x100e_8086;
    regs[4] = 0xfebc_0000; // bar0
    regs[5] = 0x0000_c001; // bar1
    regs[9] = 0x1234_5678; // bar5
    regs[10] = 0xdead_beef; // cardbus cis pointer
    regs[11] = 0x4321_1234; // subsystem device 0x4321, vendor 0x1234
    regs[12] = 0xfeb8_0000; // expansion rom
    regs[13] = 0x0000_00dc; // capabilities pointer
    regs[15] = 0x4030_010a; // max lat 40, min grant 30, pin 01, line 0a
    space.push_device(0x113, regs);
    let d: PciDevice = read_device(&mut space, 0x113);
    assert_eq!(d.header.vendor_id, 0x8086);
    assert_eq!(d.bar0, 0xfebc_0000);
    assert_eq!(d.bar1, 0x0000_c001);
    assert_eq!(d.bar2, 0);
    assert_eq!(d.bar5, 0x1234_5678);
    assert_eq!(d.cardbus_cis_pointer, 0xdead_beef);
    assert_eq!(d.subsystem_vendor_id, 0x1234);
    assert_eq!(d.subsystem_device_id, 0x4321);
    assert_eq!(d.expansion_rom_address, 0xfeb8_0000);
    assert_eq!(d.capabilities, 0xdc);
    assert_eq!(d.reserved, [0, 0, 0, 0, 0, 0, 0]);
    assert_eq!(d.interrupt_line, 0x0a);
    assert_eq!(d.interrupt_pin, 0x01);
    assert_eq!(d.min_grant, 0x30);
    assert_eq!(d.max_latency, 0x40);
}

#[test]
fn first_register_file_wins_for_a_repeated_bdf() {
    let mut space = ConfigSpace::new();
    space.push_device(0x113, std_device_regs(0x8086, 0x100e, 0));
    space.push_device(0x113, std_device_regs(0x10ec, 0x8139, 0));
    let h = read_header(&mut space, 0x113);
    assert_eq!(h.vendor_id, 0x8086);
    assert_eq!(h.device_id, 0x100e);
}

#[test]
fn bar_type_decode() {
    assert_eq!(BarType::try_from_bits(0), Some(BarType::Bits32));
    assert_eq!(BarType::try_from_bits(2), Some(BarType::Bits64));
    // Any other two-bit pattern is the fatal case.
    assert_eq!(BarType::try_from_bits(1), None);
    assert_eq!(BarType::try_from_bits(3), None);
    assert_eq!(BarType::from(0), BarType::Bits32);
    assert_eq!(BarType::from(2), BarType::Bits64);
    // Raw BAR value 0x0: type bits 00 -> 32-bit.
    assert_eq!(BarType::from_bar(0x0000_0000), Some(BarType::Bits32));
    // Type bits 10 (value 2) sit at bits 1..3 of the raw BAR: 0b100.
    assert_eq!(BarType::from_bar(0x0000_0004), Some(BarType::Bits64));
    // Type bits 01 and 11 are the fatal case.
    assert_eq!(BarType::from_bar(0x0000_0002), None);
    assert_eq!(BarType::from_bar(0x0000_0006), None);
}

#[test]
fn init_discovers_and_binds() {
    let mut space = ConfigSpace::new();
    space.push_device(0x113, std_device_regs(0x8086, 0x100e, 0));
    let drivers: Vec<Probe> = vec![probe_vendor_8086];
    let mut persisted: Option<PresenceBitmap> = None;
    let mut store: DeviceStore<StubDevice> = DeviceStore::new();
    init(&mut space, &mut persisted, &drivers, &mut store);
    assert_eq!(store.len(), 1);
    assert_eq!(store.get(0).id, 1);
    let bm = persisted.expect("enumeration must persist its bitmap");
    assert!(bm.get(0x113));
    assert!(!bm.get(0x112));
}

#[test]
fn init_reuses_persisted_bitmap() {
    let mut space = ConfigSpace::new();
    space.push_device(0x113, std_device_regs(0x8086, 0x100e, 0));
    // A bitmap persisted by an earlier boot of the same power cycle marks
    // a different address: the initializer must trust it and not re-scan.
    let mut stale = PresenceBitmap::new();
    stale.set(0x21);
    let mut persisted = Some(stale);
    let drivers: Vec<Probe> = vec![probe_always];
    let mut store: DeviceStore<StubDevice> = DeviceStore::new();
    init(&mut space, &mut persisted, &drivers, &mut store);
    // Address 0x21 reads as absent (all-ones header, a bridge-like type),
    // and 0x113 was never visited: nothing can have been bound from it.
    assert_eq!(store.len(), 0);
    let bm = persisted.expect("the persisted bitmap must survive");
    assert!(bm.get(0x21));
    assert!(!bm.get(0x113));
}

#[test]
fn bridges_never_reach_probes() {
    let mut space = ConfigSpace::new();
    // header_type low seven bits nonzero: a bridge, whatever its IDs.
    space.push_device(0x113, std_device_regs(0x8086, 0x100e, 1));
    space.push_device(0x114, std_device_regs(0x8086, 0x100e, 0x81));
    let drivers: Vec<Probe> = vec![probe_always];
    let mut persisted: Option<PresenceBitmap> = None;
    let mut store: DeviceStore<StubDevice> = DeviceStore::new();
    init(&mut space, &mut persisted, &drivers, &mut store);
    assert_eq!(store.len(), 0);
    // The bridge is still present in the bitmap; only probing skips it.
    assert!(persisted.expect("bitmap must be persisted").get(0x113));
}

#[test]
fn two_claims_both_bound() {
    let mut space = ConfigSpace::new();
    space.push_device(0x113, std_device_regs(0x8086, 0x100e, 0));
    let drivers: Vec<Probe> = vec![probe_vendor_8086, probe_always];
    let mut persisted: Option<PresenceBitmap> = None;
    let mut store: DeviceStore<StubDevice> = DeviceStore::new();
    init(&mut space, &mut persisted, &drivers, &mut store);
    assert_eq!(store.len(), 2);
    assert_eq!(store.get(0).id, 1);
    assert_eq!(store.get(1).id, 2 + 0x8086);
}

#[test]
fn declining_probe_binds_nothing() {
    let mut space = ConfigSpace::new();
    space.push_device(0x113, std_device_regs(0x10ec, 0x8139, 0));
    let drivers: Vec<Probe> = vec![probe_vendor_8086, probe_never];
    let mut persisted: Option<PresenceBitmap> = None;
    let mut store: DeviceStore<StubDevice> = DeviceStore::new();
    init(&mut space, &mut persisted, &drivers, &mut store);
    assert_eq!(store.len(), 0);
}

#[test]
fn declining_probe_does_not_stop_enumeration() {
    let mut space = ConfigSpace::new();
    space.push_device(0x10, std_device_regs(0x10ec, 0x8139, 0));
    space.push_device(0x113, std_device_regs(0x8086, 0x100e, 0));
    space.push_device(0xffff, std_device_regs(0x8086, 0x1533, 0));
    let drivers: Vec<Probe> = vec![probe_vendor_8086];
    let mut persisted: Option<PresenceBitmap> = None;
    let mut store: DeviceStore<StubDevice> = DeviceStore::new();
    init(&mut space, &mut persisted, &drivers, &mut store);
    // The first device declines; the later two are still probed and bound.
    assert_eq!(store.len(), 2);
}

#[test]
fn destroy_all_purges_each_exactly_once() {
    let mut store: DeviceStore<StubDevice> = DeviceStore::new();
    store.acquire();
    store.push(StubDevice::new(10));
    store.push(StubDevice::new(11));
    store.push(StubDevice::new(12));
    store.release();
    destroy_devices(&mut store);
    assert_eq!(store.len(), 3);
    for i in 0..store.len() {
        assert_eq!(store.get(i).purges, 1);
        assert_eq!(store.get(i).id, 10 + i as u32);
    }
}

#[test]
fn destroy_all_ignores_a_held_lock() {
    let mut store: DeviceStore<StubDevice> = DeviceStore::new();
    store.acquire();
    store.push(StubDevice::new(7));
    // The holder never releases: an abandoned critical section, as a panic
    // in mid-operation would leave it. Teardown must proceed regardless.
    destroy_devices(&mut store);
    assert_eq!(store.len(), 1);
    assert_eq!(store.get(0).purges, 1);
}

#[test]
fn stub_device_counts_purges() {
    let mut d = StubDevice::new(3);
    assert_eq!(d.purges, 0);
    d.purge();
    d.purge();
    assert_eq!(d.purges, 2);
    assert_eq!(d.id, 3);
}
