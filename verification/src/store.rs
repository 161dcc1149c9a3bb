//! The device store and the teardown protocol.
//!
//! Bound driver instances live in one process-wide store, guarded during
//! normal operation by the kernel's interrupt-disabling lock; the lock is
//! modelled here as an explicit held flag, so that the locking discipline
//! stands in the contracts. Ahead of a soft reboot the emergency path
//! walks the store and quiesces every instance, deliberately ignoring the
//! flag: its caller is possibly a panic handler that interrupted the very
//! holder of the lock, and must have stopped every other core first.

use vstd::prelude::*;

verus! {

/// A bound driver instance. The one capability every instance must support
/// is `purge`: quiesce the device — stop DMA and interrupt generation —
/// well enough that it stays silent until a freshly reloaded kernel probes
/// it again.
///
/// `purge` carries no precondition at all: it must be callable from a
/// hostile context — inside a panic handler, under an abandoned lock, with
/// the device half-way through a normal operation. Once purged, an
/// instance is never handed back to normal use; the device is rediscovered
/// fresh after the soft reboot.
pub trait Device: Sized {
    /// How often this instance has been purged. An instance starts at
    /// zero; the store's teardown drives it up by exactly one.
    spec fn purge_count(&self) -> nat;

    /// Quiesce the device, best effort, without blocking and without
    /// assuming the device's own consistency.
    fn purge(&mut self)
        ensures
            final(self).purge_count() == old(self).purge_count() + 1,
    ;
}

/// The process-wide collection of bound driver instances, with the held
/// flag of the interrupt-disabling lock that guards it.
pub struct DeviceStore<D: Device> {
    devices: Vec<D>,
    held: bool,
}

impl<D: Device> DeviceStore<D> {
    /// The instances the store holds, in binding order.
    pub closed spec fn spec_devices(self) -> Seq<D> {
        self.devices@
    }

    /// Whether the lock is held.
    pub closed spec fn spec_held(self) -> bool {
        self.held
    }

    /// An empty store with its lock free.
    pub fn new() -> (s: DeviceStore<D>)
        ensures
            s.spec_devices().len() == 0,
            !s.spec_held(),
    {
        DeviceStore { devices: Vec::new(), held: false }
    }

    /// Take the lock. Normal mutation must hold it; the caller is expected
    /// to release it promptly, never across a wait.
    pub fn acquire(&mut self)
        requires
            !old(self).spec_held(),
        ensures
            final(self).spec_held(),
            final(self).spec_devices() == old(self).spec_devices(),
    {
        self.held = true;
    }

    /// Release the lock.
    pub fn release(&mut self)
        requires
            old(self).spec_held(),
        ensures
            !final(self).spec_held(),
            final(self).spec_devices() == old(self).spec_devices(),
    {
        self.held = false;
    }

    /// Append a freshly bound instance; the normal path, under the lock.
    pub fn push(&mut self, d: D)
        requires
            old(self).spec_held(),
        ensures
            final(self).spec_held(),
            final(self).spec_devices() =~= old(self).spec_devices().push(d),
    {
        self.devices.push(d);
    }

    /// How many instances are bound.
    pub fn len(&self) -> (n: usize)
        ensures
            n == self.spec_devices().len(),
    {
        self.devices.len()
    }

    /// One bound instance, by binding order.
    pub fn get(&self, i: usize) -> (d: &D)
        requires
            i < self.spec_devices().len(),
        ensures
            *d == self.spec_devices()[i as int],
    {
        &self.devices[i]
    }

    /// The emergency teardown: purge every instance, in store order, each
    /// exactly once. This is the one documented exception to the locking
    /// discipline — it takes no notice of the held flag, because its
    /// caller may itself have interrupted the holder. It is only sound
    /// once every other core has been stopped; the store is iterated, not
    /// cleared.
    pub fn destroy_all(&mut self)
        ensures
            final(self).spec_held() == old(self).spec_held(),
            final(self).spec_devices().len() == old(self).spec_devices().len(),
            forall|i: int| 0 <= i < old(self).spec_devices().len()
                ==> (#[trigger] final(self).spec_devices()[i]).purge_count()
                    == old(self).spec_devices()[i].purge_count() + 1,
    {
        let n = self.devices.len();
        let mut i: usize = 0;
        while i < n
            invariant
                n == self.devices@.len(),
                i <= n,
                self.held == old(self).held,
                self.devices@.len() == old(self).devices@.len(),
                forall|k: int| 0 <= k < i
                    ==> (#[trigger] self.devices@[k]).purge_count()
                        == old(self).devices@[k].purge_count() + 1,
                forall|k: int| i <= k < n
                    ==> #[trigger] self.devices@[k] == old(self).devices@[k],
            decreases n - i,
        {
            let d = &mut self.devices[i];
            d.purge();
            i += 1;
        }
    }
}

/// Largest value the stub's visible counter reaches before it saturates.
pub const STUB_COUNTER_MAX: u64 = 0xffff_ffff_ffff_ffff;

/// A minimal driver instance: it drives no hardware and only counts how
/// often it is purged. It gives the registry and the store a concrete
/// instance to bind and tear down.
pub struct StubDevice {
    /// A caller-chosen tag telling instances apart.
    pub id: u32,
    /// How often this instance has been purged; saturates at the counter
    /// limit rather than wrap.
    pub purges: u64,
    /// The exact purge count, unbounded.
    pub count: Ghost<nat>,
}

impl StubDevice {
    /// A fresh, never-purged instance.
    pub fn new(id: u32) -> (d: StubDevice)
        ensures
            d.id == id,
            d.purges == 0,
            d.purge_count() == 0,
    {
        StubDevice { id, purges: 0, count: Ghost(0) }
    }
}

impl Device for StubDevice {
    open spec fn purge_count(&self) -> nat {
        self.count@
    }

    fn purge(&mut self)
        ensures
            final(self).id == old(self).id,
            final(self).purges == (if old(self).purges < STUB_COUNTER_MAX {
                old(self).purges + 1
            } else {
                old(self).purges as int
            }),
    {
        if self.purges < STUB_COUNTER_MAX {
            self.purges = self.purges + 1;
        }
        proof {
            self.count@ = self.count@ + 1;
        }
    }
}

} // verus!
