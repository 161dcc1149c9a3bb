//! The driver registry.
//!
//! A fixed, ordered list of probe routines is offered every discovered
//! standard device. Each routine either claims the device — returning a
//! freshly initialized driver instance — or declines with `None`; an
//! internal failure of a routine is a declination, never a fault that
//! stops enumeration. Every claim is appended to the store, so more than
//! one routine may bind the same physical device; stopping at the first
//! match is deliberately not done.

use vstd::prelude::*;
use crate::header::PciDevice;
use crate::store::{Device, DeviceStore};

verus! {

/// The instances of a round of probing, in routine order: every `Some` in
/// order, the `None`s dropped.
pub open spec fn claimed_of<D>(claims: Seq<Option<D>>) -> Seq<D>
    decreases claims.len(),
{
    if claims.len() == 0 {
        Seq::empty()
    } else {
        let rest = claimed_of(claims.drop_last());
        match claims.last() {
            Some(d) => rest.push(d),
            None => rest,
        }
    }
}

/// The instances of many rounds of probing, one round per visited address
/// in ascending order, concatenated.
pub open spec fn bound_of<D>(rounds: Seq<Seq<Option<D>>>) -> Seq<D>
    decreases rounds.len(),
{
    if rounds.len() == 0 {
        Seq::empty()
    } else {
        bound_of(rounds.drop_last()) + claimed_of(rounds.last())
    }
}

/// One more round binds exactly its own claims, after everything bound so
/// far.
pub proof fn lemma_bound_of_push<D>(rounds: Seq<Seq<Option<D>>>, r: Seq<Option<D>>)
    ensures
        bound_of(rounds.push(r)) =~= bound_of(rounds) + claimed_of(r),
{
    assert(rounds.push(r).drop_last() =~= rounds);
    assert(rounds.push(r).last() == r);
}

/// Rounds in which nothing was probed, padded onto a log of rounds, bind
/// nothing.
pub open spec fn padded<D>(rounds: Seq<Seq<Option<D>>>, n: nat) -> Seq<Seq<Option<D>>>
    decreases n,
{
    if n == 0 {
        rounds
    } else {
        padded(rounds, (n - 1) as nat).push(Seq::empty())
    }
}

/// Padding a log of rounds with empty rounds changes nothing of what was
/// bound.
pub proof fn lemma_padded<D>(rounds: Seq<Seq<Option<D>>>, n: nat)
    ensures
        padded(rounds, n).len() == rounds.len() + n,
        bound_of(padded(rounds, n)) =~= bound_of(rounds),
        forall|a: int| 0 <= a < rounds.len() ==> #[trigger] padded(rounds, n)[a] == rounds[a],
        forall|a: int| rounds.len() <= a < rounds.len() + n
            ==> (#[trigger] padded(rounds, n)[a]).len() == 0,
    decreases n,
{
    if n > 0 {
        let prev = padded(rounds, (n - 1) as nat);
        lemma_padded(rounds, (n - 1) as nat);
        lemma_bound_of_push(prev, Seq::empty());
        assert(claimed_of(Seq::<Option<D>>::empty()).len() == 0);
        assert(bound_of(padded(rounds, n)) =~= bound_of(prev) + claimed_of(Seq::empty()));
    }
}

/// A round of probing yields at most one instance per claim.
pub proof fn lemma_claimed_of_len<D>(claims: Seq<Option<D>>)
    ensures
        claimed_of(claims).len() <= claims.len(),
    decreases claims.len(),
{
    if claims.len() > 0 {
        lemma_claimed_of_len(claims.drop_last());
    }
}

/// Every instance a round of probing yields is the `Some` of one of its
/// claims.
pub proof fn lemma_claimed_of_membership<D>(claims: Seq<Option<D>>, j: int)
    requires
        0 <= j < claimed_of(claims).len(),
    ensures
        exists|i: int| 0 <= i < claims.len() && claims[i] == Some(claimed_of(claims)[j]),
    decreases claims.len(),
{
    let rest = claimed_of(claims.drop_last());
    if claims.last() is Some && j == claimed_of(claims).len() - 1 {
        assert(claims[claims.len() - 1] == Some(claimed_of(claims)[j]));
    } else {
        lemma_claimed_of_membership(claims.drop_last(), j);
        let i = choose|i: int|
            0 <= i < claims.drop_last().len()
                && claims.drop_last()[i] == Some(claimed_of(claims.drop_last())[j]);
        assert(claims[i] == Some(claimed_of(claims)[j]));
    }
}

/// Offer one device snapshot to every probe routine in list order and
/// append every claimed instance to the store, in routine order.
///
/// The store comes out exactly as it went in plus the claims of one round
/// of probing: some sequence of per-routine answers, each a possible
/// result of its routine on this snapshot, whose `Some`s in order are what
/// was appended. In particular every appended instance was claimed by one
/// of the routines, and a routine that cannot answer `None` is never
/// passed over.
pub fn probe_all<D: Device, F: Fn(PciDevice) -> Option<D>>(
    drivers: &Vec<F>,
    dev: PciDevice,
    store: &mut DeviceStore<D>,
)
    requires
        !old(store).spec_held(),
        forall|i: int| 0 <= i < drivers@.len() ==> call_requires(#[trigger] drivers@[i], (dev,)),
    ensures
        !final(store).spec_held(),
        exists|claims: Seq<Option<D>>|
            {
                &&& claims.len() == drivers@.len()
                &&& (forall|i: int| 0 <= i < claims.len()
                    ==> call_ensures(drivers@[i], (dev,), #[trigger] claims[i]))
                &&& final(store).spec_devices()
                    =~= old(store).spec_devices() + claimed_of(claims)
            },
        final(store).spec_devices().len() >= old(store).spec_devices().len(),
        final(store).spec_devices().len()
            <= old(store).spec_devices().len() + drivers@.len(),
        final(store).spec_devices().subrange(0, old(store).spec_devices().len() as int)
            =~= old(store).spec_devices(),
        forall|j: int|
            old(store).spec_devices().len() <= j < final(store).spec_devices().len()
                ==> exists|i: int|
                    0 <= i < drivers@.len()
                        && call_ensures(
                        drivers@[i],
                        (dev,),
                        Some(#[trigger] final(store).spec_devices()[j]),
                    ),
{
    let ghost base = store.spec_devices();
    let ghost mut claims: Seq<Option<D>> = Seq::empty();
    let mut i: usize = 0;
    while i < drivers.len()
        invariant
            !store.spec_held(),
            i <= drivers@.len(),
            forall|k: int| 0 <= k < drivers@.len()
                ==> call_requires(#[trigger] drivers@[k], (dev,)),
            claims.len() == i,
            forall|k: int| 0 <= k < claims.len()
                ==> call_ensures(drivers@[k], (dev,), #[trigger] claims[k]),
            store.spec_devices() =~= base + claimed_of(claims),
        decreases drivers@.len() - i,
    {
        let claim = (drivers[i])(dev);
        proof {
            let prev = claims;
            claims = claims.push(claim);
            assert(claims.drop_last() =~= prev);
            assert(claims.last() == claim);
        }
        match claim {
            Some(d) => {
                store.acquire();
                store.push(d);
                store.release();
            },
            None => {},
        }
        proof {
            lemma_claimed_of_len(claims);
            assert(store.spec_devices() =~= base + claimed_of(claims));
        }
        i += 1;
    }
    proof {
        assert(claims.len() == drivers@.len());
        lemma_claimed_of_len(claims);
        assert(store.spec_devices() =~= base + claimed_of(claims));
        assert forall|j: int| base.len() <= j < store.spec_devices().len()
            implies exists|k: int|
                0 <= k < drivers@.len()
                    && call_ensures(
                    drivers@[k],
                    (dev,),
                    Some(#[trigger] store.spec_devices()[j]),
                ) by {
            lemma_claimed_of_membership(claims, j - base.len());
            let k = choose|k: int|
                0 <= k < claims.len() && claims[k] == Some(claimed_of(claims)[j - base.len()]);
            assert(call_ensures(drivers@[k], (dev,), claims[k]));
        }
    }
}

} // verus!
