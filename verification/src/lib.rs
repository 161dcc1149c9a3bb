//! PCI bus enumeration and driver binding.
//!
//! The crate discovers every function that responds on the PCI configuration
//! mechanism, records the result in a presence bitmap that survives a soft
//! reboot, reads the configuration header of each present function, offers
//! every standard (non-bridge) function to a fixed list of driver probe
//! routines, and keeps the instances the probes claimed in a device store.
//! Ahead of a soft reboot the store's emergency path quiesces every bound
//! instance regardless of the state of the store's lock.
//!
//! The configuration mechanism itself — the address port, the data port and
//! the register files behind them — is held as an explicit value of type
//! [`space::ConfigSpace`], so that every step of enumeration is a verified
//! function of that value.

use vstd::prelude::*;

pub mod addr;
pub mod bitmap;
pub mod header;
pub mod registry;
pub mod scan;
pub mod space;
pub mod store;

use crate::bitmap::{PresenceBitmap, BITMAP_WORDS};
use crate::header::{PciDevice, HEADER_TYPE_MASK};
use crate::registry::{
    bound_of, claimed_of, lemma_bound_of_push, lemma_padded, padded, probe_all,
};
use crate::scan::{enumerate, is_scan_of, read_device, read_header, spec_device_at, spec_header_at};
use crate::space::{spec_present, ConfigSpace, DeviceRegs};
use crate::store::{Device, DeviceStore};

verus! {

/// Whether enumeration visits a packed BDF address: the bit the persisted
/// bitmap carries for it, or, where no bitmap was persisted yet, whether a
/// device responds there — which is what the bit of the fresh scan becomes.
pub open spec fn addr_live(
    persisted: Option<PresenceBitmap>,
    devices: Seq<DeviceRegs>,
    a: int,
) -> bool {
    match persisted {
        Some(b) => b.bit(a),
        None => spec_present(devices, a),
    }
}

/// Whether initialization offers the function at a packed BDF address to
/// the probe routines: its address is visited and it uses the standard
/// device layout.
pub open spec fn visited_standard(
    persisted: Option<PresenceBitmap>,
    devices: Seq<DeviceRegs>,
    a: int,
) -> bool {
    addr_live(persisted, devices, a)
        && spec_header_at(devices, a).header_type & HEADER_TYPE_MASK == 0
}

/// Where a driver instance in the store can have come from: some visited
/// address holding a standard (non-bridge) function whose device snapshot
/// one of the probe routines claimed with exactly this instance.
pub open spec fn instance_provenance<D, F: Fn(PciDevice) -> Option<D>>(
    drivers: Seq<F>,
    persisted: Option<PresenceBitmap>,
    devices: Seq<DeviceRegs>,
    inst: D,
) -> bool {
    exists|a: int, i: int|
        0 <= a < 65536 && 0 <= i < drivers.len() && visited_standard(persisted, devices, a)
            && #[trigger] call_ensures(drivers[i], (spec_device_at(devices, a),), Some(inst))
}

/// A log of probing rounds, one round per packed BDF address in ascending
/// order, is consistent with one run of initialization: every visited
/// standard address was offered to every routine in list order and the
/// round holds each routine's answer for that device snapshot; every other
/// address was probed by nobody.
pub open spec fn probe_log_ok<D, F: Fn(PciDevice) -> Option<D>>(
    rounds: Seq<Seq<Option<D>>>,
    drivers: Seq<F>,
    persisted: Option<PresenceBitmap>,
    devices: Seq<DeviceRegs>,
) -> bool {
    &&& forall|a: int|
        0 <= a < rounds.len() && visited_standard(persisted, devices, a)
            ==> (#[trigger] rounds[a]).len() == drivers.len()
                && (forall|i: int|
                0 <= i < drivers.len()
                    ==> #[trigger] call_ensures(
                    drivers[i],
                    (spec_device_at(devices, a),),
                    rounds[a][i],
                ))
    &&& forall|a: int|
        0 <= a < rounds.len() && !visited_standard(persisted, devices, a)
            ==> (#[trigger] rounds[a]).len() == 0
}

/// A consistent probe log stays consistent when the next address in order
/// was probed by nobody — it was not visited, or is not standard.
proof fn lemma_log_push_empty<D, F: Fn(PciDevice) -> Option<D>>(
    rounds: Seq<Seq<Option<D>>>,
    drivers: Seq<F>,
    persisted: Option<PresenceBitmap>,
    devices: Seq<DeviceRegs>,
)
    requires
        probe_log_ok(rounds, drivers, persisted, devices),
        !visited_standard(persisted, devices, rounds.len() as int),
    ensures
        probe_log_ok(rounds.push(Seq::empty()), drivers, persisted, devices),
        bound_of(rounds.push(Seq::<Option<D>>::empty())) =~= bound_of(rounds),
{
    lemma_bound_of_push(rounds, Seq::<Option<D>>::empty());
    assert(claimed_of(Seq::<Option<D>>::empty()).len() == 0);
    let r2 = rounds.push(Seq::<Option<D>>::empty());
    assert forall|a: int| 0 <= a < r2.len() && visited_standard(persisted, devices, a)
        implies (#[trigger] r2[a]).len() == drivers.len()
            && (forall|i: int|
            0 <= i < drivers.len()
                ==> #[trigger] call_ensures(
                drivers[i],
                (spec_device_at(devices, a),),
                r2[a][i],
            )) by {
        assert(a < rounds.len());
        assert(r2[a] == rounds[a]);
    }
    assert forall|a: int| 0 <= a < r2.len() && !visited_standard(persisted, devices, a)
        implies (#[trigger] r2[a]).len() == 0 by {
        if a < rounds.len() {
            assert(r2[a] == rounds[a]);
        } else {
            assert(r2[a] == Seq::<Option<D>>::empty());
        }
    }
}

/// A consistent probe log stays consistent when a whole run of addresses
/// none of which was visited as a standard device is appended as empty
/// rounds.
proof fn lemma_log_pad<D, F: Fn(PciDevice) -> Option<D>>(
    rounds: Seq<Seq<Option<D>>>,
    n: nat,
    drivers: Seq<F>,
    persisted: Option<PresenceBitmap>,
    devices: Seq<DeviceRegs>,
)
    requires
        probe_log_ok(rounds, drivers, persisted, devices),
        forall|a: int| rounds.len() <= a < rounds.len() + n
            ==> !visited_standard(persisted, devices, a),
    ensures
        padded(rounds, n).len() == rounds.len() + n,
        probe_log_ok(padded(rounds, n), drivers, persisted, devices),
        bound_of(padded(rounds, n)) =~= bound_of(rounds),
    decreases n,
{
    if n > 0 {
        lemma_log_pad(rounds, (n - 1) as nat, drivers, persisted, devices);
        lemma_padded(rounds, (n - 1) as nat);
        let prev = padded(rounds, (n - 1) as nat);
        assert(!visited_standard(persisted, devices, prev.len() as int));
        lemma_log_push_empty(prev, drivers, persisted, devices);
        assert(padded(rounds, n) == prev.push(Seq::<Option<D>>::empty()));
    }
}

/// A consistent probe log stays consistent when the next address in order
/// is a visited standard device and every routine's answer for it is
/// appended as one full round.
proof fn lemma_log_push_round<D, F: Fn(PciDevice) -> Option<D>>(
    rounds: Seq<Seq<Option<D>>>,
    claims: Seq<Option<D>>,
    drivers: Seq<F>,
    persisted: Option<PresenceBitmap>,
    devices: Seq<DeviceRegs>,
)
    requires
        probe_log_ok(rounds, drivers, persisted, devices),
        visited_standard(persisted, devices, rounds.len() as int),
        claims.len() == drivers.len(),
        forall|i: int|
            0 <= i < drivers.len()
                ==> #[trigger] call_ensures(
                drivers[i],
                (spec_device_at(devices, rounds.len() as int),),
                claims[i],
            ),
    ensures
        probe_log_ok(rounds.push(claims), drivers, persisted, devices),
        bound_of(rounds.push(claims)) =~= bound_of(rounds) + claimed_of(claims),
{
    lemma_bound_of_push(rounds, claims);
    let r2 = rounds.push(claims);
    assert forall|a: int| 0 <= a < r2.len() && visited_standard(persisted, devices, a)
        implies (#[trigger] r2[a]).len() == drivers.len()
            && (forall|i: int|
            0 <= i < drivers.len()
                ==> #[trigger] call_ensures(
                drivers[i],
                (spec_device_at(devices, a),),
                r2[a][i],
            )) by {
        if a < rounds.len() {
            assert(r2[a] == rounds[a]);
        } else {
            assert(r2[a] == claims);
        }
    }
    assert forall|a: int| 0 <= a < r2.len() && !visited_standard(persisted, devices, a)
        implies (#[trigger] r2[a]).len() == 0 by {
        assert(a < rounds.len());
        assert(r2[a] == rounds[a]);
    }
}

/// Enumerate the bus and bind drivers: the initialization entry point, run
/// once per boot.
///
/// Where the persisted slot is empty the full address space is scanned
/// first and the resulting bitmap is persisted; a slot already filled by an
/// earlier boot of the same power cycle is reused untouched. Every visited
/// address is read; bridges and other non-standard layouts are skipped
/// before any probing; every standard device snapshot is offered to every
/// probe routine in list order and every claimed instance is appended to
/// the store. The register files come out exactly as they went in: reading
/// configuration space changes nothing.
pub fn init<D: Device, F: Fn(PciDevice) -> Option<D>>(
    space: &mut ConfigSpace,
    persisted: &mut Option<PresenceBitmap>,
    drivers: &Vec<F>,
    store: &mut DeviceStore<D>,
)
    requires
        old(space).wf(),
        !old(store).spec_held(),
        *old(persisted) matches Some(b) ==> b.wf(),
        forall|i: int, d: PciDevice|
            0 <= i < drivers@.len() ==> #[trigger] call_requires(drivers@[i], (d,)),
    ensures
        final(space).wf(),
        final(space).devices == old(space).devices,
        !final(store).spec_held(),
        *old(persisted) is Some ==> *final(persisted) == *old(persisted),
        *old(persisted) is None ==> (*final(persisted) matches Some(b)
            && is_scan_of(b, old(space).devices@)),
        *final(persisted) is Some,
        final(store).spec_devices().len() >= old(store).spec_devices().len(),
        final(store).spec_devices().subrange(0, old(store).spec_devices().len() as int)
            =~= old(store).spec_devices(),
        forall|j: int|
            old(store).spec_devices().len() <= j < final(store).spec_devices().len()
                ==> instance_provenance(
                drivers@,
                *old(persisted),
                old(space).devices@,
                #[trigger] final(store).spec_devices()[j],
            ),
        exists|rounds: Seq<Seq<Option<D>>>|
            {
                &&& rounds.len() == 65536
                &&& probe_log_ok(rounds, drivers@, *old(persisted), old(space).devices@)
                &&& final(store).spec_devices()
                    =~= old(store).spec_devices() + bound_of(rounds)
            },
{
    let ghost devs = old(space).devices@;
    let ghost base = old(store).spec_devices();
    let ghost mut rounds: Seq<Seq<Option<D>>> = Seq::empty();
    if persisted.is_none() {
        let bm = enumerate(space);
        *persisted = Some(bm);
    }
    let bitmap = persisted.as_ref().unwrap();
    let mut idx: usize = 0;
    while idx < BITMAP_WORDS
        invariant
            space.wf(),
            space.devices@ == devs,
            space.devices == old(space).devices,
            !store.spec_held(),
            idx <= BITMAP_WORDS,
            bitmap.wf(),
            forall|a: int| 0 <= a < 65536
                ==> #[trigger] bitmap.bit(a) == addr_live(*old(persisted), devs, a),
            forall|i: int, d: PciDevice|
                0 <= i < drivers@.len() ==> #[trigger] call_requires(drivers@[i], (d,)),
            store.spec_devices().len() >= base.len(),
            store.spec_devices().subrange(0, base.len() as int) =~= base,
            forall|j: int|
                base.len() <= j < store.spec_devices().len()
                    ==> instance_provenance(
                    drivers@,
                    *old(persisted),
                    devs,
                    #[trigger] store.spec_devices()[j],
                ),
            rounds.len() == idx * 64,
            probe_log_ok(rounds, drivers@, *old(persisted), devs),
            store.spec_devices() =~= base + bound_of(rounds),
        decreases BITMAP_WORDS - idx,
    {
        let w = bitmap.word(idx);
        if w != 0 {
            let mut b: u16 = 0;
            while b < 64
                invariant
                    space.wf(),
                    space.devices@ == devs,
                    space.devices == old(space).devices,
                    !store.spec_held(),
                    idx < BITMAP_WORDS,
                    b <= 64,
                    bitmap.wf(),
                    w == bitmap.words@[idx as int],
                    forall|a: int| 0 <= a < 65536
                        ==> #[trigger] bitmap.bit(a) == addr_live(*old(persisted), devs, a),
                    forall|i: int, d: PciDevice|
                        0 <= i < drivers@.len()
                            ==> #[trigger] call_requires(drivers@[i], (d,)),
                    store.spec_devices().len() >= base.len(),
                    store.spec_devices().subrange(0, base.len() as int) =~= base,
                    forall|j: int|
                        base.len() <= j < store.spec_devices().len()
                            ==> instance_provenance(
                            drivers@,
                            *old(persisted),
                            devs,
                            #[trigger] store.spec_devices()[j],
                        ),
                    rounds.len() == idx * 64 + b,
                    probe_log_ok(rounds, drivers@, *old(persisted), devs),
                    store.spec_devices() =~= base + bound_of(rounds),
                decreases 64 - b,
            {
                let addr: u16 = (idx as u16) * 64 + b;
                proof {
                    let bb = b as u64;
                    assert((w & (1u64 << bb) != 0) == ((w >> bb) & 1 == 1)) by (bit_vector)
                        requires
                            bb < 64,
                    ;
                    assert(addr as int / 64 == idx as int);
                    assert(addr as int % 64 == b as int);
                }
                if w & (1u64 << (b as u64)) != 0 {
                    proof {
                        assert(bitmap.bit(addr as int));
                        assert(addr_live(*old(persisted), devs, addr as int));
                    }
                    let header = read_header(space, addr);
                    if header.is_standard() {
                        let device = read_device(space, addr);
                        let ghost prev = store.spec_devices();
                        probe_all(drivers, device, store);
                        proof {
                            assert forall|j: int|
                                base.len() <= j < store.spec_devices().len()
                                implies instance_provenance(
                                drivers@,
                                *old(persisted),
                                devs,
                                #[trigger] store.spec_devices()[j],
                            ) by {
                                if j < prev.len() {
                                    assert(store.spec_devices().subrange(0, prev.len() as int)
                                        =~= prev);
                                    assert(store.spec_devices()[j] == prev[j]);
                                } else {
                                    let i = choose|i: int|
                                        0 <= i < drivers@.len()
                                            && call_ensures(
                                            drivers@[i],
                                            (device,),
                                            Some(store.spec_devices()[j]),
                                        );
                                    assert(device == spec_device_at(devs, addr as int));
                                    assert(spec_header_at(devs, addr as int).header_type
                                        & HEADER_TYPE_MASK == 0);
                                    assert(call_ensures(
                                        drivers@[i],
                                        (spec_device_at(devs, addr as int),),
                                        Some(store.spec_devices()[j]),
                                    ));
                                }
                            }
                            assert(store.spec_devices().subrange(0, base.len() as int) =~= base);
                            let claims = choose|c: Seq<Option<D>>|
                                {
                                    &&& c.len() == drivers@.len()
                                    &&& (forall|i: int| 0 <= i < c.len()
                                        ==> call_ensures(drivers@[i], (device,), #[trigger] c[i]))
                                    &&& store.spec_devices() =~= prev + claimed_of(c)
                                };
                            assert(visited_standard(*old(persisted), devs, addr as int));
                            lemma_log_push_round(rounds, claims, drivers@, *old(persisted), devs);
                            rounds = rounds.push(claims);
                            assert(store.spec_devices() =~= base + bound_of(rounds));
                        }
                    } else {
                        proof {
                            assert(spec_header_at(devs, addr as int).header_type
                                & HEADER_TYPE_MASK != 0);
                            assert(!visited_standard(*old(persisted), devs, addr as int));
                            lemma_log_push_empty(rounds, drivers@, *old(persisted), devs);
                            rounds = rounds.push(Seq::empty());
                        }
                    }
                } else {
                    proof {
                        assert(!bitmap.bit(addr as int));
                        assert(!addr_live(*old(persisted), devs, addr as int));
                        assert(!visited_standard(*old(persisted), devs, addr as int));
                        lemma_log_push_empty(rounds, drivers@, *old(persisted), devs);
                        rounds = rounds.push(Seq::empty());
                    }
                }
                b += 1;
            }
        } else {
            proof {
                assert(forall|j: u64| j < 64 ==> ((0u64 >> j) & 1 == 0)) by (bit_vector);
                assert forall|a: int| rounds.len() <= a < rounds.len() + 64
                    implies !visited_standard(*old(persisted), devs, a) by {
                    assert(a / 64 == idx as int);
                    assert(0 <= a % 64 < 64);
                    assert(bitmap.words@[a / 64] == 0);
                    assert(!bitmap.bit(a));
                    assert(!addr_live(*old(persisted), devs, a));
                }
                lemma_log_pad(rounds, 64, drivers@, *old(persisted), devs);
                rounds = padded(rounds, 64);
                assert(store.spec_devices() =~= base + bound_of(rounds));
            }
        }
        idx += 1;
    }
    proof {
        assert(rounds.len() == 65536);
        assert(probe_log_ok(rounds, drivers@, *old(persisted), devs));
        assert(store.spec_devices() =~= base + bound_of(rounds));
    }
}

/// Tear every bound driver instance down ahead of a soft reboot: the
/// teardown entry point, run once, with every other core already stopped.
/// Each instance in the store is purged exactly once, in store order,
/// whatever the state of the store's lock — the caller may itself be a
/// panic handler that interrupted the lock's holder.
pub fn destroy_devices<D: Device>(store: &mut DeviceStore<D>)
    ensures
        final(store).spec_held() == old(store).spec_held(),
        final(store).spec_devices().len() == old(store).spec_devices().len(),
        forall|i: int| 0 <= i < old(store).spec_devices().len()
            ==> (#[trigger] final(store).spec_devices()[i]).purge_count()
                == old(store).spec_devices()[i].purge_count() + 1,
{
    store.destroy_all();
}

} // verus!
