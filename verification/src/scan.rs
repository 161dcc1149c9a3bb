//! The bus scanner and the register readers.
//!
//! Enumeration walks every (bus, device, function) triple in ascending
//! order, selects register zero of each and reads the vendor/device word;
//! anything but the all-ones sentinel marks the address present in the
//! bitmap. The readers then fetch the four header registers, and for
//! standard devices the full sixteen-register block, through the same
//! two-port mechanism.

use vstd::prelude::*;
use crate::addr::{pack_bdf, NOT_PRESENT};
use crate::bitmap::PresenceBitmap;
use crate::header::{spec_device_from_words, spec_header_from_words, PciDevice, PciHeader};
use crate::space::{read_config, spec_present, spec_read, ConfigSpace, DeviceRegs};

verus! {

/// The words the data port answers for the first `n` registers of one
/// function.
pub open spec fn spec_words_at(devices: Seq<DeviceRegs>, bdf: int, n: int) -> Seq<u32> {
    Seq::new(n as nat, |r: int| spec_read(devices, bdf, r))
}

/// The common header as read from the mechanism at one address.
pub open spec fn spec_header_at(devices: Seq<DeviceRegs>, bdf: int) -> PciHeader {
    spec_header_from_words(spec_words_at(devices, bdf, 4))
}

/// The standard device layout as read from the mechanism at one address.
pub open spec fn spec_device_at(devices: Seq<DeviceRegs>, bdf: int) -> PciDevice {
    spec_device_from_words(spec_words_at(devices, bdf, 16))
}

/// A bitmap is the scan result for a set of register files: exactly the
/// addresses where a device responds are marked.
pub open spec fn is_scan_of(b: PresenceBitmap, devices: Seq<DeviceRegs>) -> bool {
    &&& b.wf()
    &&& forall|a: int| 0 <= a < 65536 ==> #[trigger] b.bit(a) == spec_present(devices, a)
}

/// Record one probe of the scanner: anything but the all-ones sentinel
/// marks the address present; the sentinel leaves its bit as it was, and no
/// other bit moves either way.
pub fn record_presence(bitmap: &mut PresenceBitmap, a: u16, value: u32)
    requires
        old(bitmap).wf(),
    ensures
        final(bitmap).wf(),
        final(bitmap).bit(a as int) == (old(bitmap).bit(a as int) || value != NOT_PRESENT),
        forall|x: int| 0 <= x < 65536 && x != a as int
            ==> final(bitmap).bit(x) == old(bitmap).bit(x),
{
    if value != NOT_PRESENT {
        bitmap.set(a);
    }
}

/// Scan the whole address space: select register zero of every possible
/// (bus, device, function) triple in ascending order, read the data port,
/// and mark every address that answered. The register files are untouched,
/// so the result is a function of them alone.
pub fn enumerate(space: &mut ConfigSpace) -> (bitmap: PresenceBitmap)
    requires
        old(space).wf(),
    ensures
        final(space).wf(),
        final(space).devices == old(space).devices,
        is_scan_of(bitmap, old(space).devices@),
{
    let mut bitmap = PresenceBitmap::new();
    let mut bus: u16 = 0;
    while bus < 256
        invariant
            space.wf(),
            space.devices == old(space).devices,
            bitmap.wf(),
            bus <= 256,
            forall|x: int| 0 <= x < bus * 256
                ==> #[trigger] bitmap.bit(x) == spec_present(space.devices@, x),
            forall|x: int| bus * 256 <= x < 65536 ==> !(#[trigger] bitmap.bit(x)),
        decreases 256 - bus,
    {
        let mut device: u16 = 0;
        while device < 32
            invariant
                space.wf(),
                space.devices == old(space).devices,
                bitmap.wf(),
                bus < 256,
                device <= 32,
                forall|x: int| 0 <= x < bus * 256 + device * 8
                    ==> #[trigger] bitmap.bit(x) == spec_present(space.devices@, x),
                forall|x: int| bus * 256 + device * 8 <= x < 65536
                    ==> !(#[trigger] bitmap.bit(x)),
            decreases 32 - device,
        {
            let mut function: u16 = 0;
            while function < 8
                invariant
                    space.wf(),
                    space.devices == old(space).devices,
                    bitmap.wf(),
                    bus < 256,
                    device < 32,
                    function <= 8,
                    forall|x: int| 0 <= x < bus * 256 + device * 8 + function
                        ==> #[trigger] bitmap.bit(x) == spec_present(space.devices@, x),
                    forall|x: int| bus * 256 + device * 8 + function <= x < 65536
                        ==> !(#[trigger] bitmap.bit(x)),
                decreases 8 - function,
            {
                let bdf = pack_bdf(bus, device, function);
                let did_vid = read_config(space, bdf, 0);
                record_presence(&mut bitmap, bdf, did_vid);
                function += 1;
            }
            device += 1;
        }
        bus += 1;
    }
    bitmap
}

/// Two scans of unchanged register files are bit-identical: the bitmap a
/// scan yields is a function of the hardware state alone, so enumerating
/// twice without a change in between gives the same bitmap both times.
pub proof fn lemma_enumerate_idempotent(
    devices: Seq<DeviceRegs>,
    b1: PresenceBitmap,
    b2: PresenceBitmap,
)
    requires
        is_scan_of(b1, devices),
        is_scan_of(b2, devices),
    ensures
        forall|a: int| 0 <= a < 65536 ==> b1.bit(a) == b2.bit(a),
        b1.words@ =~= b2.words@,
{
    assert forall|i: int| 0 <= i < 1024 implies b1.words@[i] == b2.words@[i] by {
        let x = b1.words@[i];
        let y = b2.words@[i];
        assert forall|j: u64| j < 64 implies ((x >> j) & 1) == ((y >> j) & 1) by {
            let a = i * 64 + j;
            assert(0 <= a < 65536);
            assert(a / 64 == i && a % 64 == j as int);
            assert(b1.bit(a) == b2.bit(a));
            assert((x >> j) & 1 < 2 && (y >> j) & 1 < 2) by (bit_vector);
        }
        lemma_u64_bits_eq(x, y, 64);
    }
}

/// Two 64-bit words whose low `k` bits agree, bit for bit, agree as masked
/// values; at the full width they are equal.
proof fn lemma_u64_bits_eq(x: u64, y: u64, k: u64)
    requires
        k <= 64,
        forall|j: u64| j < k ==> #[trigger] ((x >> j) & 1) == ((y >> j) & 1),
    ensures
        k == 64 ==> x == y,
        k < 64 ==> (x & (((1u64 << k) - 1) as u64)) == (y & (((1u64 << k) - 1) as u64)),
    decreases k,
{
    if k == 0 {
        assert((x & (((1u64 << 0u64) - 1) as u64)) == (y & (((1u64 << 0u64) - 1) as u64))) by (bit_vector);
    } else {
        lemma_u64_bits_eq(x, y, (k - 1) as u64);
        let p: u64 = (k - 1) as u64;
        assert(((x >> p) & 1) == ((y >> p) & 1));
        if k < 64 {
            assert((x & (((1u64 << k) - 1) as u64)) == (y & (((1u64 << k) - 1) as u64))) by (bit_vector)
                requires
                    0 < k < 64,
                    p == k - 1,
                    (x & (((1u64 << p) - 1) as u64)) == (y & (((1u64 << p) - 1) as u64)),
                    ((x >> p) & 1) == ((y >> p) & 1),
            ;
        } else {
            assert(x == y) by (bit_vector)
                requires
                    (x & (((1u64 << 63u64) - 1) as u64)) == (y & (((1u64 << 63u64) - 1) as u64)),
                    ((x >> 63u64) & 1) == ((y >> 63u64) & 1),
            ;
        }
    }
}

/// Read the four common header registers of one function and type them.
pub fn read_header(space: &mut ConfigSpace, bdf: u16) -> (h: PciHeader)
    requires
        old(space).wf(),
    ensures
        final(space).wf(),
        final(space).devices == old(space).devices,
        h == spec_header_at(old(space).devices@, bdf as int),
{
    let words = read_words(space, bdf, 4);
    let h = PciHeader::from_words(&words);
    proof {
        assert(words@ =~= spec_words_at(old(space).devices@, bdf as int, 4));
    }
    h
}

/// Read the sixteen registers of one standard device and type them.
pub fn read_device(space: &mut ConfigSpace, bdf: u16) -> (d: PciDevice)
    requires
        old(space).wf(),
    ensures
        final(space).wf(),
        final(space).devices == old(space).devices,
        d == spec_device_at(old(space).devices@, bdf as int),
{
    let words = read_words(space, bdf, 16);
    let d = PciDevice::from_words(&words);
    proof {
        assert(words@ =~= spec_words_at(old(space).devices@, bdf as int, 16));
    }
    d
}

/// Read the first `n` registers of one function, one data-port read per
/// register index in ascending order.
fn read_words(space: &mut ConfigSpace, bdf: u16, n: u16) -> (words: Vec<u32>)
    requires
        old(space).wf(),
        n <= 64,
    ensures
        final(space).wf(),
        final(space).devices == old(space).devices,
        words@.len() == n,
        forall|r: int| 0 <= r < n
            ==> #[trigger] words@[r] == spec_read(old(space).devices@, bdf as int, r),
{
    let mut words: Vec<u32> = Vec::new();
    let mut r: u16 = 0;
    while r < n
        invariant
            space.wf(),
            space.devices == old(space).devices,
            r <= n,
            n <= 64,
            words@.len() == r,
            forall|k: int| 0 <= k < r
                ==> #[trigger] words@[k] == spec_read(old(space).devices@, bdf as int, k),
        decreases n - r,
    {
        let v = read_config(space, bdf, r);
        words.push(v);
        r += 1;
    }
    words
}

} // verus!
