//! The ring of live mix keys, one per epoch.
use std::collections::HashMap;
use std::sync::{Arc, Mutex};
use vstd::prelude::*;
use vstd::std_specs::hash::spec_keys_iter;
use vstd::std_specs::iter::IteratorSpec;

use crate::constants::MAX_EPOCH_PERIOD;
use crate::errors::MixKeyError;
use crate::mix_key::{lemma_push_contains, spec_expected_items, spec_filter_size, MixKey};
use crate::outside::{clock_epoch, clock_period, new_mutex, period_of, public_of, share};

verus! {

broadcast use vstd::std_specs::hash::group_hash_axioms;

/// The epochs that a map holds, each once.
fn epochs_of<V>(m: &HashMap<u64, V>) -> (r: Vec<u64>)
    ensures
        r@.to_set() == m@.dom(),
        r@.no_duplicates(),
{
    let ghost keys = spec_keys_iter(m).remaining().unref();
    let mut r: Vec<u64> = Vec::new();
    for k in it: m.keys()
        invariant
            it.seq().unref() == keys,
            r@ == keys.take(it.index() as int),
    {
        r.push(*k);
        assert(r@ =~= keys.take(it.index() as int + 1));
    }
    assert(r@ =~= keys);
    r
}

/// The epochs `base`, `base + 1`, ..., `base + n - 1` (those that fit in
/// a `u64`).
pub open spec fn window(base: u64, n: u8) -> Set<u64> {
    Set::new(|e: u64| base <= e && e < base + n)
}

/// Whether `e` is older than the grace epoch before `now`.
pub open spec fn stale(e: u64, now: u64) -> bool {
    (e as int) < now as int - 1
}

/// `after` is `before` without the epochs that are stale at `now`, and
/// `r` says whether there were any.
pub open spec fn pruned<H>(before: Map<u64, H>, after: Map<u64, H>, now: u64, r: bool) -> bool {
    &&& forall|e: u64| #[trigger]
        after.contains_key(e) <==> before.contains_key(e) && !stale(e, now)
    &&& forall|e: u64| #[trigger] after.contains_key(e) ==> after[e] == before[e]
    &&& r == exists|e: u64| #[trigger] before.contains_key(e) && stale(e, now)
}

/// What `dst` becomes when it is reconciled with `ring`: the ring's epochs,
/// each with the handle `dst` already had for it, or else the ring's.
pub open spec fn reconciled<H>(ring: Map<u64, H>, dst: Map<u64, H>) -> Map<u64, H> {
    Map::new(
        |e: u64| ring.contains_key(e),
        |e: u64|
            if dst.contains_key(e) {
                dst[e]
            } else {
                ring[e]
            },
    )
}

/// Reconciling a map that was just reconciled with the same ring leaves it
/// unchanged.
pub proof fn lemma_reconcile_idempotent<H>(ring: Map<u64, H>, dst: Map<u64, H>)
    ensures
        reconciled(ring, reconciled(ring, dst)) == reconciled(ring, dst),
{
    assert(reconciled(ring, reconciled(ring, dst)) =~= reconciled(ring, dst));
}

/// Whether an epoch duration is one the clock can work with: positive and
/// at most `MAX_EPOCH_PERIOD` seconds.
pub open spec fn valid_period(p: u64) -> bool {
    0 < p && p <= MAX_EPOCH_PERIOD
}

/// The ring of live mix keys, one shared handle per epoch.
pub struct MixKeys {
    keys: HashMap<u64, Arc<Mutex<MixKey>>>,
    public_keys: HashMap<u64, ecdh_wrapper::PublicKey>,
    made: Ghost<Map<u64, MixKey>>,
    clock: epoch::Clock,
    num_mix_keys: u8,
    base_dir: String,
    line_rate: u64,
}

impl MixKeys {
    /// The live mix keys by epoch.
    pub closed spec fn ring(&self) -> Map<u64, Arc<Mutex<MixKey>>> {
        self.keys@
    }

    /// The public key of each live mix key, by epoch.
    pub closed spec fn public_view(&self) -> Map<u64, ecdh_wrapper::PublicKey> {
        self.public_keys@
    }

    /// The mix key that was put into each live handle when it was made.
    pub closed spec fn made(&self) -> Map<u64, MixKey> {
        self.made@
    }

    /// The directory under which the stores of the mix keys lie.
    pub closed spec fn spec_base_dir(&self) -> Seq<char> {
        self.base_dir@
    }

    /// The line rate the mix keys are sized for.
    pub closed spec fn spec_line_rate(&self) -> u64 {
        self.line_rate
    }

    /// Each live handle was made from a mix key of its own epoch, with a
    /// filter sized for the ring's line rate and the clock's period, whose
    /// public key stands beside it.
    pub open spec fn entries_match(&self) -> bool {
        &&& self.made().dom() == self.ring().dom()
        &&& forall|e: u64| #[trigger]
            self.ring().contains_key(e) ==> {
                &&& self.made()[e].spec_epoch() == e
                &&& self.public_view()[e] == public_of(self.made()[e].spec_private_key())
                &&& self.made()[e].spec_filter_bits() == spec_filter_size(
                    spec_expected_items(self.spec_line_rate(), period_of(self.spec_clock())),
                )
            }
    }

    /// The clock that drives the ring.
    pub closed spec fn spec_clock(&self) -> epoch::Clock {
        self.clock
    }

    /// Each live epoch has its public key beside its handle, and the clock
    /// has a period it can work with.
    pub closed spec fn wf(&self) -> bool {
        &&& self.keys@.dom() == self.public_keys@.dom()
        &&& self.entries_match()
        &&& valid_period(period_of(self.clock))
    }

    /// How many consecutive epochs the ring holds keys for.
    pub closed spec fn spec_num_mix_keys(&self) -> u8 {
        self.num_mix_keys
    }

    /// Makes the ring and fills it with the mix keys of the current epoch and
    /// the `num_mix_keys - 1` epochs after it, loading those whose directory
    /// exists under `base_dir`. A clock whose period is zero or longer than
    /// `MAX_EPOCH_PERIOD` is `InvalidClock`.
    pub fn new(clock: epoch::Clock, num_mix_keys: u8, base_dir: String, line_rate: u64) -> (r:
        Result<Self, MixKeyError>)
        ensures
            r matches Err(MixKeyError::InvalidClock) <==> !valid_period(period_of(clock)),
            num_mix_keys == 0 && valid_period(period_of(clock)) ==> r is Ok,
            r matches Ok(m) ==> m.wf() && m.entries_match() && m.spec_num_mix_keys() == num_mix_keys
                && m.spec_clock() == clock && m.spec_base_dir() == base_dir@ && m.spec_line_rate()
                == line_rate && exists|e: u64| m.ring().dom() == window(e, num_mix_keys),
    {
        let period = clock_period(&clock);
        if period == 0 || period > MAX_EPOCH_PERIOD {
            return Err(MixKeyError::InvalidClock);
        }
        let mut m = MixKeys {
            keys: HashMap::new(),
            public_keys: HashMap::new(),
            made: Ghost(Map::empty()),
            clock,
            num_mix_keys,
            base_dir,
            line_rate,
        };
        match m.init() {
            Ok(()) => Ok(m),
            Err(e) => Err(e),
        }
    }

    /// Generates or loads the mix keys from the current epoch on.
    fn init(&mut self) -> (r: Result<(), MixKeyError>)
        requires
            old(self).ring() == Map::<u64, Arc<Mutex<MixKey>>>::empty(),
            old(self).wf(),
        ensures
            final(self).wf(),
            final(self).entries_match(),
            final(self).spec_clock() == old(self).spec_clock(),
            final(self).spec_base_dir() == old(self).spec_base_dir(),
            final(self).spec_line_rate() == old(self).spec_line_rate(),
            final(self).spec_num_mix_keys() == old(self).spec_num_mix_keys(),
            old(self).spec_num_mix_keys() == 0 ==> r is Ok,
            r matches Err(e) ==> !(e is InvalidClock),
            r is Ok ==> exists|e: u64|
                final(self).ring().dom() == window(e, old(self).spec_num_mix_keys()),
    {
        let now = clock_epoch(&self.clock);
        match self.generate(now) {
            Ok(_) => {
                assert(final(self).ring().dom() =~= window(now, self.num_mix_keys));
                Ok(())
            },
            Err(e) => Err(e),
        }
    }

    /// Adds a mix key for each epoch from `base_epoch` to
    /// `base_epoch + num_mix_keys - 1` that the ring lacks, and says whether
    /// it added any. Keys already in the ring stay as they are. Where making
    /// one fails, the error is returned and the ring holds the keys added
    /// before it.
    pub fn generate(&mut self, base_epoch: u64) -> (r: Result<bool, MixKeyError>)
        requires
            old(self).wf(),
        ensures
            final(self).wf(),
            final(self).spec_clock() == old(self).spec_clock(),
            final(self).spec_num_mix_keys() == old(self).spec_num_mix_keys(),
            final(self).spec_base_dir() == old(self).spec_base_dir(),
            final(self).spec_line_rate() == old(self).spec_line_rate(),
            final(self).entries_match(),
            window(base_epoch, old(self).spec_num_mix_keys()).subset_of(old(self).ring().dom())
                ==> r matches Ok(false),
            r is Err ==> exists|e: u64| #[trigger]
                window(base_epoch, old(self).spec_num_mix_keys()).contains(e)
                    && !final(self).ring().contains_key(e),
            r matches Err(e) ==> !(e is InvalidClock),
            forall|e: u64| #[trigger]
                old(self).public_view().contains_key(e) ==> final(self).public_view()[e]
                    == old(self).public_view()[e],
            forall|e: u64| #[trigger]
                old(self).ring().contains_key(e) ==> final(self).ring().contains_key(e)
                    && final(self).ring()[e] == old(self).ring()[e],
            forall|e: u64| #[trigger]
                final(self).ring().contains_key(e) ==> old(self).ring().contains_key(e) || window(
                    base_epoch,
                    old(self).spec_num_mix_keys(),
                ).contains(e),
            r is Ok ==> final(self).ring().dom() == old(self).ring().dom().union(
                window(base_epoch, old(self).spec_num_mix_keys()),
            ),
            r matches Ok(b) ==> b == !window(base_epoch, old(self).spec_num_mix_keys()).subset_of(
                old(self).ring().dom(),
            ),
    {
        let ghost w = window(base_epoch, self.num_mix_keys);
        let ghost old_ring = self.keys@;
        let ghost old_self = *self;
        let mut did_generate = false;
        let n = self.num_mix_keys as u64;
        let mut i: u64 = 0;
        while i < n
            invariant
                i <= n,
                n == self.num_mix_keys,
                self.num_mix_keys == old_self.num_mix_keys,
                self.clock == old_self.clock,
                self.base_dir == old_self.base_dir,
                self.line_rate == old_self.line_rate,
                old_ring == old_self.keys@,
                old_self == *old(self),
                old_self.wf(),
                self.wf(),
                forall|e: u64| #[trigger]
                    old_self.public_keys@.contains_key(e) ==> self.public_keys@.contains_key(e)
                        && self.public_keys@[e] == old_self.public_keys@[e],
                !did_generate ==> self.keys@ == old_ring && self.public_keys@
                    == old_self.public_keys@,
                w == window(base_epoch, self.num_mix_keys),
                forall|e: u64| #[trigger]
                    old_ring.contains_key(e) ==> self.keys@.contains_key(e) && self.keys@[e]
                        == old_ring[e],
                forall|e: u64| #[trigger]
                    self.keys@.contains_key(e) <==> old_ring.contains_key(e) || (base_epoch <= e
                        && e < base_epoch + i),
                did_generate == exists|e: u64|
                    base_epoch <= e && e < base_epoch + i && !#[trigger] old_ring.contains_key(e),
            ensures
                i == n || base_epoch + i > u64::MAX,
                forall|e: u64| #[trigger]
                    old_ring.contains_key(e) ==> self.keys@.contains_key(e) && self.keys@[e]
                        == old_ring[e],
                forall|e: u64| #[trigger]
                    self.keys@.contains_key(e) <==> old_ring.contains_key(e) || (base_epoch <= e
                        && e < base_epoch + i),
                did_generate == exists|e: u64|
                    base_epoch <= e && e < base_epoch + i && !#[trigger] old_ring.contains_key(e),
                self.num_mix_keys == old_self.num_mix_keys,
                self.clock == old_self.clock,
                self.base_dir == old_self.base_dir,
                self.line_rate == old_self.line_rate,
                self.wf(),
                forall|e: u64| #[trigger]
                    old_self.public_keys@.contains_key(e) ==> self.public_keys@.contains_key(e)
                        && self.public_keys@[e] == old_self.public_keys@[e],
            decreases n - i,
        {
            if base_epoch > u64::MAX - i {
                break;
            }
            let epoch = base_epoch + i;
            if !self.keys.contains_key(&epoch) {
                let period = clock_period(&self.clock);
                let key = match MixKey::new(self.line_rate, epoch, period, &self.base_dir) {
                    Ok(k) => k,
                    Err(e) => {
                        assert(w.contains(epoch));
                        return Err(e);
                    },
                };
                let public = key.public_key();
                let ghost made_key = key;
                self.keys.insert(epoch, Arc::new(new_mutex(key)));
                self.public_keys.insert(epoch, public);
                proof {
                    self.made@ = self.made@.insert(epoch, made_key);
                }
                did_generate = true;
            }
            i = i + 1;
        }
        assert(self.keys@.dom() =~= old_ring.dom().union(w));
        if did_generate {
            let ghost e = choose|e: u64|
                base_epoch <= e && e < base_epoch + i && !#[trigger] old_ring.contains_key(e);
            assert(w.contains(e));
        } else {
            assert(w.subset_of(old_ring.dom())) by {
                assert forall|e: u64| w.contains(e) implies old_ring.dom().contains(e) by {
                    if !old_ring.contains_key(e) {
                        assert(base_epoch <= e && e < base_epoch + i);
                    }
                }
            }
        }
        Ok(did_generate)
    }
    /// Drops every mix key of an epoch older than the one before
    /// `now_epoch`, and says whether it dropped any. The others stay as they
    /// are.
    pub fn prune_before(&mut self, now_epoch: u64) -> (r: bool)
        requires
            old(self).wf(),
        ensures
            final(self).wf(),
            final(self).entries_match(),
            final(self).spec_clock() == old(self).spec_clock(),
            final(self).spec_base_dir() == old(self).spec_base_dir(),
            final(self).spec_line_rate() == old(self).spec_line_rate(),
            forall|e: u64| #[trigger]
                final(self).made().contains_key(e) ==> final(self).made()[e] == old(self).made()[e],
            forall|e: u64| #[trigger]
                final(self).public_view().contains_key(e) ==> final(self).public_view()[e]
                    == old(self).public_view()[e],
            final(self).spec_num_mix_keys() == old(self).spec_num_mix_keys(),
            pruned(old(self).ring(), final(self).ring(), now_epoch, r),
            forall|e: u64| #[trigger]
                final(self).ring().contains_key(e) <==> old(self).ring().contains_key(e) && !stale(
                    e,
                    now_epoch,
                ),
            forall|e: u64| #[trigger]
                final(self).ring().contains_key(e) ==> final(self).ring()[e] == old(self).ring()[e],
            r == exists|e: u64| #[trigger] old(self).ring().contains_key(e) && stale(e, now_epoch),
    {
        let ghost old_ring = self.keys@;
        let epochs = epochs_of(&self.keys);
        let mut did_prune = false;
        let mut i: usize = 0;
        while i < epochs.len()
            invariant
                i <= epochs@.len(),
                epochs@.to_set() == old_ring.dom(),
                epochs@.no_duplicates(),
                self.num_mix_keys == old(self).num_mix_keys,
                self.clock == old(self).clock,
                self.base_dir == old(self).base_dir,
                self.line_rate == old(self).line_rate,
                old(self).wf(),
                self.wf(),
                forall|e: u64| #[trigger]
                    self.made@.contains_key(e) ==> self.made@[e] == old(self).made@[e],
                forall|e: u64| #[trigger]
                    self.public_keys@.contains_key(e) ==> self.public_keys@[e]
                        == old(self).public_keys@[e],
                old_ring == old(self).keys@,
                forall|e: u64| #[trigger]
                    self.keys@.contains_key(e) <==> old_ring.contains_key(e) && !(stale(
                        e,
                        now_epoch,
                    ) && epochs@.take(i as int).contains(e)),
                forall|e: u64| #[trigger]
                    self.keys@.contains_key(e) ==> self.keys@[e] == old_ring[e],
                did_prune == exists|e: u64| #[trigger]
                    epochs@.take(i as int).contains(e) && stale(e, now_epoch),
            decreases epochs@.len() - i,
        {
            let e = epochs[i];
            assert(epochs@.take(i as int + 1) =~= epochs@.take(i as int).push(e));
            assert forall|x: u64| #[trigger]
                epochs@.take(i as int + 1).contains(x) <==> epochs@.take(i as int).contains(x) || x
                    == e by {
                lemma_push_contains(epochs@.take(i as int), e, x);
            }
            if now_epoch > 0 && e < now_epoch - 1 {
                self.keys.remove(&e);
                self.public_keys.remove(&e);
                proof {
                    self.made@ = self.made@.remove(e);
                }
                did_prune = true;
                assert(epochs@.take(i as int + 1).contains(e) && stale(e, now_epoch));
            } else {
                assert((exists|x: u64| #[trigger]
                    epochs@.take(i as int + 1).contains(x) && stale(x, now_epoch)) ==> (exists|
                    x: u64,
                | #[trigger] epochs@.take(i as int).contains(x) && stale(x, now_epoch)));
                proof {
                    if did_prune {
                        let x = choose|x: u64| #[trigger]
                            epochs@.take(i as int).contains(x) && stale(x, now_epoch);
                        assert(epochs@.take(i as int + 1).contains(x));
                    }
                }
            }
            i = i + 1;
        }
        assert(epochs@.take(i as int) =~= epochs@);
        assert forall|e: u64| old_ring.contains_key(e) implies #[trigger] epochs@.contains(e) by {
            assert(epochs@.to_set().contains(e));
        }
        if did_prune {
            let ghost e = choose|e: u64| #[trigger]
                epochs@.take(i as int).contains(e) && stale(e, now_epoch);
            assert(epochs@.to_set().contains(e));
            assert(old_ring.contains_key(e));
        }
        did_prune
    }

    /// Drops every mix key of an epoch older than the one before the current
    /// epoch, and says whether it dropped any.
    pub fn prune(&mut self) -> (r: bool)
        requires
            old(self).wf(),
        ensures
            final(self).wf(),
            final(self).spec_clock() == old(self).spec_clock(),
            final(self).spec_num_mix_keys() == old(self).spec_num_mix_keys(),
            exists|now: u64| #[trigger] pruned(old(self).ring(), final(self).ring(), now, r),
    {
        let now = clock_epoch(&self.clock);
        self.prune_before(now)
    }

    /// The epochs that the ring holds keys for, each once, in no particular
    /// order.
    pub fn epochs(&self) -> (r: Vec<u64>)
        ensures
            r@.to_set() == self.ring().dom(),
            r@.no_duplicates(),
    {
        epochs_of(&self.keys)
    }

    /// A shared handle to the mix key of `epoch`, where the ring has one.
    pub fn handle(&self, epoch: u64) -> (r: Option<Arc<Mutex<MixKey>>>)
        ensures
            r is Some <==> self.ring().contains_key(epoch),
            r matches Some(h) ==> h == self.ring()[epoch],
    {
        match self.keys.get(&epoch) {
            Some(h) => Some(share(h)),
            None => None,
        }
    }

    /// The public key of the mix key of `epoch`, where the ring has one.
    pub fn public_key(&self, epoch: u64) -> (r: Option<ecdh_wrapper::PublicKey>)
        requires
            self.wf(),
        ensures
            r is Some <==> self.ring().contains_key(epoch),
            r matches Some(k) ==> k == self.public_view()[epoch] && k == public_of(
                self.made()[epoch].spec_private_key(),
            ) && self.made()[epoch].spec_epoch() == epoch,
    {
        match self.public_keys.get(&epoch) {
            Some(k) => Some(*k),
            None => None,
        }
    }

    /// Reconciles `dst` with the ring: drops the epochs that the ring no
    /// longer holds and adds, as shared handles, those that `dst` lacks.
    pub fn shadow(&self, dst: &mut HashMap<u64, Arc<Mutex<MixKey>>>)
        ensures
            final(dst)@ == reconciled(self.ring(), old(dst)@),
    {
        let ghost old_dst = dst@;
        let held = epochs_of(dst);
        let mut i: usize = 0;
        while i < held.len()
            invariant
                i <= held@.len(),
                held@.to_set() == old_dst.dom(),
                old_dst == old(dst)@,
                forall|e: u64| #[trigger]
                    dst@.contains_key(e) <==> old_dst.contains_key(e) && (self.keys@.contains_key(e)
                        || !held@.take(i as int).contains(e)),
                forall|e: u64| #[trigger] dst@.contains_key(e) ==> dst@[e] == old_dst[e],
            decreases held@.len() - i,
        {
            let e = held[i];
            assert(held@.take(i as int + 1) =~= held@.take(i as int).push(e));
            assert forall|x: u64| #[trigger]
                held@.take(i as int + 1).contains(x) <==> held@.take(i as int).contains(x) || x
                    == e by {
                lemma_push_contains(held@.take(i as int), e, x);
            }
            if !self.keys.contains_key(&e) {
                dst.remove(&e);
            }
            i = i + 1;
        }
        assert(held@.take(i as int) =~= held@);
        assert forall|e: u64| old_dst.contains_key(e) implies #[trigger] held@.contains(e) by {
            assert(held@.to_set().contains(e));
        }
        let live = epochs_of(&self.keys);
        let mut j: usize = 0;
        while j < live.len()
            invariant
                j <= live@.len(),
                live@.to_set() == self.keys@.dom(),
                old_dst == old(dst)@,
                forall|e: u64| #[trigger]
                    dst@.contains_key(e) <==> (old_dst.contains_key(e) && self.keys@.contains_key(e))
                        || live@.take(j as int).contains(e),
                forall|e: u64| #[trigger]
                    dst@.contains_key(e) ==> dst@[e] == (if old_dst.contains_key(e) {
                        old_dst[e]
                    } else {
                        self.keys@[e]
                    }),
            decreases live@.len() - j,
        {
            let e = live[j];
            assert(live@.take(j as int + 1) =~= live@.take(j as int).push(e));
            assert forall|x: u64| #[trigger]
                live@.take(j as int + 1).contains(x) <==> live@.take(j as int).contains(x) || x
                    == e by {
                lemma_push_contains(live@.take(j as int), e, x);
            }
            assert(live@.to_set().contains(e));
            if !dst.contains_key(&e) {
                match self.keys.get(&e) {
                    Some(h) => {
                        dst.insert(e, share(h));
                    },
                    None => {},
                }
            }
            j = j + 1;
        }
        assert(live@.take(j as int) =~= live@);
        assert forall|e: u64| #[trigger] dst@.contains_key(e) implies self.keys@.contains_key(e) by {
            if live@.contains(e) {
                assert(live@.to_set().contains(e));
            }
        }
        assert(dst@ =~= reconciled(self.ring(), old_dst));
    }
}

} // verus!