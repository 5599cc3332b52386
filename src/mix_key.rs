//! One epoch's mix key: its private key and its replay-tag set.
use vstd::prelude::*;

use crate::constants::{
    FILTER_BITS_PER_ITEM, FILTER_HASHES, MIN_CACHE_CAPACITY, MIX_KEY_FLUSH_FREQUENCY, PACKET_SIZE, PRIVATE_KEY_SIZE,
    SNAPSHOT_AFTER_OPS,
    SPHINX_REPLAY_TAG_SIZE, STORE_COMPRESSION,
};
use crate::errors::MixKeyError;
use crate::outside::{
    filter_bits, filter_contains, filter_insert, filter_items, filter_new, key_bytes,
    key_from_bytes, key_generate, key_public, key_to_vec, le_u64, os_rng, public_of, read_le_u64,
    store_entries, store_flush, store_get, store_keys, store_open, store_put, write_le_u64,
};

verus! {

/// A Sphinx packet's replay tag.
#[derive(Clone, Copy, PartialEq, Eq, Hash, Debug)]
pub struct Tag(pub [u8; SPHINX_REPLAY_TAG_SIZE]);

impl View for Tag {
    type V = Seq<u8>;

    open spec fn view(&self) -> Seq<u8> {
        self.0@
    }
}

/// The store key under which the private key is kept: "private_key".
pub open spec fn private_key_key() -> Seq<u8> {
    seq![112u8, 114, 105, 118, 97, 116, 101, 95, 107, 101, 121]
}

/// The store key under which the bound epoch is kept: "epoch".
pub open spec fn epoch_key() -> Seq<u8> {
    seq![101u8, 112, 111, 99, 104]
}

/// Whether a stored epoch record binds `epoch`: eight bytes that encode it,
/// least significant first.
pub open spec fn binds_epoch(raw: Seq<u8>, epoch: u64) -> bool {
    raw.len() == 8 && le_u64(raw) == epoch
}

/// The most distinct packets one epoch can carry at the line rate.
pub open spec fn spec_expected_items(line_rate: u64, epoch_duration: u64) -> int {
    let n = (line_rate / PACKET_SIZE) as int * epoch_duration;
    if n > u32::MAX {
        u32::MAX as int
    } else {
        n
    }
}

/// The number of bits of the replay filter: at least one item's worth.
pub open spec fn spec_filter_size(expected_items: int) -> int {
    if expected_items == 0 {
        FILTER_BITS_PER_ITEM as int
    } else {
        expected_items * FILTER_BITS_PER_ITEM
    }
}

/// The store's memory budget: half the bytes of the tags of one epoch, at
/// least the store's smallest budget, and the largest budget where that
/// does not fit.
pub open spec fn spec_cache_capacity(line_rate: u64, epoch_duration: u64) -> int {
    let n = (epoch_duration * line_rate) / PACKET_SIZE as int * SPHINX_REPLAY_TAG_SIZE / 2;
    if n > u64::MAX {
        u64::MAX as int
    } else if n < MIN_CACHE_CAPACITY {
        MIN_CACHE_CAPACITY as int
    } else {
        n
    }
}

/// What one replay check does to the filter's items and the store's entries
/// (from `f0`, `s0` to `f1`, `s1`) for the tag `t`, given its result `r`.
/// The verdict is whether the store held the tag. A replay leaves both
/// unchanged; a fresh tag is recorded in both. A store failure is reported
/// as such, and at most records the tag.
pub open spec fn replay_step(
    f0: Set<Seq<u8>>,
    s0: Map<Seq<u8>, Seq<u8>>,
    f1: Set<Seq<u8>>,
    s1: Map<Seq<u8>, Seq<u8>>,
    t: Seq<u8>,
    r: Result<bool, MixKeyError>,
) -> bool {
    match r {
        Ok(b) => b == s0.contains_key(t) && if b {
            f1 == f0 && s1 == s0
        } else {
            f1 == f0.insert(t) && s1 == s0.insert(t, Seq::empty())
        },
        Err(e) => (e is StoreError) && (f1 == f0 || f1 == f0.insert(t)) && (s1 == s0 || s1
            == s0.insert(t, Seq::empty())),
    }
}


/// `fs`, `ss` are the filter items and store entries of a mix key before
/// and after each of a run of replay checks of the tags `ts`, which
/// returned `rs` (successes and failures alike).
pub open spec fn check_run(
    fs: Seq<Set<Seq<u8>>>,
    ss: Seq<Map<Seq<u8>, Seq<u8>>>,
    ts: Seq<Seq<u8>>,
    rs: Seq<Result<bool, MixKeyError>>,
) -> bool {
    &&& fs.len() == ts.len() + 1
    &&& ss.len() == ts.len() + 1
    &&& rs.len() == ts.len()
    &&& forall|i: int|
        0 <= i < ts.len() ==> #[trigger] replay_step(
            fs[i],
            ss[i],
            fs[i + 1],
            ss[i + 1],
            ts[i],
            rs[i],
        )
}

/// Over a run of replay checks, failed ones included, the store keeps
/// every key it had.
pub proof fn lemma_run_keeps(
    fs: Seq<Set<Seq<u8>>>,
    ss: Seq<Map<Seq<u8>, Seq<u8>>>,
    ts: Seq<Seq<u8>>,
    rs: Seq<Result<bool, MixKeyError>>,
    i: int,
    j: int,
)
    requires
        check_run(fs, ss, ts, rs),
        0 <= i <= j <= ts.len(),
    ensures
        ss[i].dom().subset_of(ss[j].dom()),
    decreases j - i,
{
    if i < j {
        let k = j - 1;
        lemma_run_keeps(fs, ss, ts, rs, i, k);
        assert(replay_step(fs[k], ss[k], fs[k + 1], ss[k + 1], ts[k], rs[k]));
    }
}

/// Once a mix key has reported a tag fresh, every later check of that tag
/// reports a replay or a store failure, whatever checks came between.
pub proof fn lemma_fresh_then_replay(
    fs: Seq<Set<Seq<u8>>>,
    ss: Seq<Map<Seq<u8>, Seq<u8>>>,
    ts: Seq<Seq<u8>>,
    rs: Seq<Result<bool, MixKeyError>>,
    i: int,
    j: int,
)
    requires
        check_run(fs, ss, ts, rs),
        0 <= i < j < ts.len(),
        ts[i] == ts[j],
        rs[i] matches Ok(false),
    ensures
        rs[j] matches Ok(true) || rs[j] matches Err(MixKeyError::StoreError),
{
    assert(replay_step(fs[i], ss[i], fs[i + 1], ss[i + 1], ts[i], rs[i]));
    assert(ss[i + 1].dom().contains(ts[i]));
    lemma_run_keeps(fs, ss, ts, rs, i + 1, j);
    assert(replay_step(fs[j], ss[j], fs[j + 1], ss[j + 1], ts[j], rs[j]));
}

/// A mix key made from a store keeps the store's entries (`from_store`),
/// so a tag that the store held before is reported a replay by every
/// successful check.
pub proof fn lemma_reopened_store_remembers(
    s0: Map<Seq<u8>, Seq<u8>>,
    f1: Set<Seq<u8>>,
    s1: Map<Seq<u8>, Seq<u8>>,
    f2: Set<Seq<u8>>,
    s2: Map<Seq<u8>, Seq<u8>>,
    t: Seq<u8>,
    r: Result<bool, MixKeyError>,
)
    requires
        s0.contains_key(t),
        s0.dom().subset_of(s1.dom()),
        replay_step(f1, s1, f2, s2, t, r),
        r is Ok,
    ensures
        r matches Ok(true),
{
}

/// The number of distinct packets one epoch can carry at `line_rate` bytes
/// per second, capped at `u32::MAX`.
pub fn expected_items(line_rate: u64, epoch_duration: u64) -> (r: u32)
    ensures
        r == spec_expected_items(line_rate, epoch_duration),
{
    let per_second = line_rate / PACKET_SIZE;
    if epoch_duration != 0 && per_second > u32::MAX as u64 / epoch_duration {
        assert(per_second * epoch_duration > u32::MAX) by (nonlinear_arith)
            requires
                per_second > u32::MAX as u64 / epoch_duration,
                epoch_duration != 0,
        ;
        u32::MAX
    } else {
        proof {
            if epoch_duration != 0 {
                assert(per_second * epoch_duration <= u32::MAX) by (nonlinear_arith)
                    requires
                        per_second <= u32::MAX as u64 / epoch_duration,
                        epoch_duration != 0,
                ;
            }
        }
        (per_second * epoch_duration) as u32
    }
}

/// The number of bits of the replay filter for `expected_items` items.
pub fn filter_size(expected_items: u32) -> (r: u64)
    ensures
        r == spec_filter_size(expected_items as int),
        r > 0,
{
    if expected_items == 0 {
        FILTER_BITS_PER_ITEM
    } else {
        expected_items as u64 * FILTER_BITS_PER_ITEM
    }
}

/// The store's memory budget for an epoch at the line rate.
pub fn cache_capacity(line_rate: u64, epoch_duration: u64) -> (r: u64)
    ensures
        r == spec_cache_capacity(line_rate, epoch_duration),
{
    assert(epoch_duration as u128 * line_rate as u128 <= u64::MAX as u128 * u64::MAX as u128)
        by (nonlinear_arith);
    let wide = epoch_duration as u128 * line_rate as u128;
    let per_packet = wide / PACKET_SIZE as u128;
    assert(per_packet * 32 <= wide) by (nonlinear_arith)
        requires
            per_packet == wide / 52000,
    ;
    let n = per_packet * SPHINX_REPLAY_TAG_SIZE as u128 / 2;
    if n > u64::MAX as u128 {
        u64::MAX
    } else if n < MIN_CACHE_CAPACITY as u128 {
        MIN_CACHE_CAPACITY
    } else {
        n as u64
    }
}

/// Whether a stored epoch record binds `epoch`.
pub fn epoch_matches(raw: &[u8], epoch: u64) -> (r: bool)
    ensures
        r == binds_epoch(raw@, epoch),
{
    if raw.len() != 8 {
        false
    } else {
        read_le_u64(raw) == epoch
    }
}

/// The character of the decimal digit `d`.
pub open spec fn digit_char(d: nat) -> char {
    if d == 0 {
        '0'
    } else if d == 1 {
        '1'
    } else if d == 2 {
        '2'
    } else if d == 3 {
        '3'
    } else if d == 4 {
        '4'
    } else if d == 5 {
        '5'
    } else if d == 6 {
        '6'
    } else if d == 7 {
        '7'
    } else if d == 8 {
        '8'
    } else {
        '9'
    }
}

/// The decimal digits of `n`, most significant first.
pub open spec fn decimal(n: nat) -> Seq<char>
    decreases n,
{
    if n < 10 {
        seq![digit_char(n)]
    } else {
        decimal(n / 10) + seq![digit_char(n % 10)]
    }
}

/// The directory of the store of `epoch` under `base_dir`:
/// `base_dir/mix_key.<epoch>`, or `mix_key.<epoch>` for an empty base.
pub open spec fn spec_store_dir(base_dir: Seq<char>, epoch: u64) -> Seq<char> {
    let name = seq!['m', 'i', 'x', '_', 'k', 'e', 'y', '.'] + decimal(epoch as nat);
    if base_dir.len() == 0 {
        name
    } else {
        base_dir + seq!['/'] + name
    }
}

fn digit_str(d: u64) -> (r: &'static str)
    requires
        d < 10,
    ensures
        r@ == seq![digit_char(d as nat)],
{
    proof {
        reveal_strlit("0");
        reveal_strlit("1");
        reveal_strlit("2");
        reveal_strlit("3");
        reveal_strlit("4");
        reveal_strlit("5");
        reveal_strlit("6");
        reveal_strlit("7");
        reveal_strlit("8");
        reveal_strlit("9");
    }
    if d == 0 {
        "0"
    } else if d == 1 {
        "1"
    } else if d == 2 {
        "2"
    } else if d == 3 {
        "3"
    } else if d == 4 {
        "4"
    } else if d == 5 {
        "5"
    } else if d == 6 {
        "6"
    } else if d == 7 {
        "7"
    } else if d == 8 {
        "8"
    } else {
        "9"
    }
}

fn push_decimal(s: &mut String, n: u64)
    ensures
        final(s)@ == old(s)@ + decimal(n as nat),
    decreases n,
{
    if n >= 10 {
        push_decimal(s, n / 10);
    }
    s.append(digit_str(n % 10));
    assert(final(s)@ =~= old(s)@ + decimal(n as nat));
}

/// The directory of the store of `epoch` under `base_dir`.
pub fn store_dir(base_dir: &String, epoch: u64) -> (r: String)
    ensures
        r@ == spec_store_dir(base_dir@, epoch),
{
    proof {
        reveal_strlit("mix_key.");
        reveal_strlit("/");
    }
    let mut dir = base_dir.clone();
    if !base_dir.as_str().is_empty() {
        dir.append("/");
    }
    dir.append("mix_key.");
    push_decimal(&mut dir, epoch);
    assert(dir@ =~= spec_store_dir(base_dir@, epoch));
    dir
}

/// Decides on the epoch record read from a store opened for `epoch`: a
/// missing record is to be written (`Ok(true)`), one that binds `epoch` is
/// kept (`Ok(false)`), and any other is `LoadCacheFailed`.
pub fn check_epoch_record(raw: &Option<Vec<u8>>, epoch: u64) -> (r: Result<bool, MixKeyError>)
    ensures
        raw is None ==> r matches Ok(true),
        raw matches Some(b) ==> (binds_epoch(b@, epoch) ==> r matches Ok(false)) && (!binds_epoch(
            b@,
            epoch,
        ) ==> r matches Err(MixKeyError::LoadCacheFailed)),
{
    match raw {
        None => Ok(true),
        Some(b) => {
            if epoch_matches(b.as_slice(), epoch) {
                Ok(false)
            } else {
                Err(MixKeyError::LoadCacheFailed)
            }
        },
    }
}

/// Loads a private key from its stored bytes: `KeyError` exactly where they
/// are not of the key size.
pub fn load_private_key(raw: &[u8]) -> (r: Result<ecdh_wrapper::PrivateKey, MixKeyError>)
    ensures
        r is Ok <==> raw@.len() == PRIVATE_KEY_SIZE,
        r matches Ok(k) ==> key_bytes(k) == raw@,
        r matches Err(e) ==> e is KeyError,
{
    match key_from_bytes(raw) {
        Ok(k) => Ok(k),
        Err(e) => Err(MixKeyError::KeyError(e)),
    }
}

/// The mix key of one epoch: its private key, a bloom filter of the tags
/// seen, and the durable store that holds the tags, the epoch it is bound to
/// and the private key.
pub struct MixKey {
    filter: bloom::BloomFilter,
    cache: sled::Db,
    private_key: ecdh_wrapper::PrivateKey,
    epoch: u64,
}

impl MixKey {
    /// The tags that the bloom filter has been given.
    pub closed spec fn filter_view(&self) -> Set<Seq<u8>> {
        filter_items(self.filter)
    }

    /// The entries of the durable store.
    pub closed spec fn store_view(&self) -> Map<Seq<u8>, Seq<u8>> {
        store_entries(self.cache)
    }

    /// The epoch this key is valid for.
    pub closed spec fn spec_epoch(&self) -> u64 {
        self.epoch
    }

    /// The private key.
    pub closed spec fn spec_private_key(&self) -> ecdh_wrapper::PrivateKey {
        self.private_key
    }

    /// The filter has at least one bit, which its lookups need, and has been
    /// given every key of the store, so that a filter miss is a store miss.
    pub closed spec fn wf(&self) -> bool {
        &&& filter_bits(self.filter) > 0
        &&& store_entries(self.cache).dom().subset_of(filter_items(self.filter))
    }

    /// The number of bits of the filter.
    pub closed spec fn spec_filter_bits(&self) -> nat {
        filter_bits(self.filter)
    }

    /// Opens or creates the mix key of `epoch` in the directory
    /// `base_dir/mix_key.<epoch>`, with a memory budget of
    /// `cache_capacity(line_rate, epoch_duration)` and a filter sized for
    /// `expected_items(line_rate, epoch_duration)` items. A store that cannot
    /// be opened is `CreateCacheFailed`; the rest is `from_store`.
    pub fn new(line_rate: u64, epoch: u64, epoch_duration: u64, base_dir: &String) -> (r: Result<
        MixKey,
        MixKeyError,
    >)
        ensures
            r matches Ok(m) ==> {
                &&& m.wf()
                &&& m.spec_epoch() == epoch
                &&& m.filter_view() == m.store_view().dom()
                &&& m.spec_filter_bits() == spec_filter_size(
                    spec_expected_items(line_rate, epoch_duration),
                )
                &&& m.store_view().contains_key(epoch_key())
                &&& binds_epoch(m.store_view()[epoch_key()], epoch)
                &&& m.store_view().contains_key(private_key_key())
                &&& key_bytes(m.spec_private_key()) == m.store_view()[private_key_key()]
                &&& key_bytes(m.spec_private_key()).len() == PRIVATE_KEY_SIZE
            },
            r matches Err(e) ==> !(e is InvalidClock),
    {
        let items = expected_items(line_rate, epoch_duration);
        let capacity = cache_capacity(line_rate, epoch_duration);
        let dir = store_dir(base_dir, epoch);
        let cache = match store_open(
            &dir,
            capacity,
            STORE_COMPRESSION,
            MIX_KEY_FLUSH_FREQUENCY,
            SNAPSHOT_AFTER_OPS,
        ) {
            Ok(db) => db,
            Err(_) => {
                return Err(MixKeyError::CreateCacheFailed);
            },
        };
        MixKey::from_store(cache, epoch, items)
    }

    /// Makes the mix key of `epoch` from its opened store `cache`, with a
    /// filter sized for `expected_items` items.
    ///
    /// The store binds one epoch: an epoch record that does not encode
    /// `epoch` fails with `LoadCacheFailed`, and a missing one is written
    /// (`CreateCacheFailed` when that write fails). A stored private key is
    /// loaded unchanged (`KeyError` when it is not of the key size); a
    /// missing one is generated from the operating system's randomness and
    /// stored (`IoError` when that randomness cannot be had,
    /// `CreateCacheFailed` when the write fails). Every entry the store held
    /// is kept; a failed read is `StoreError`. The filter is given every key
    /// that the store holds.
    pub fn from_store(cache: sled::Db, epoch: u64, expected_items: u32) -> (r: Result<
        MixKey,
        MixKeyError,
    >)
        ensures
            ({
                let s0 = store_entries(cache);
                &&& r matches Ok(m) ==> {
                    &&& m.wf()
                    &&& m.spec_epoch() == epoch
                    &&& m.filter_view() == m.store_view().dom()
                    &&& m.spec_filter_bits() == spec_filter_size(expected_items as int)
                    &&& binds_epoch(m.store_view()[epoch_key()], epoch)
                    &&& key_bytes(m.spec_private_key()) == m.store_view()[private_key_key()]
                    &&& key_bytes(m.spec_private_key()).len() == PRIVATE_KEY_SIZE
                    &&& forall|k: Seq<u8>| #[trigger]
                        m.store_view().contains_key(k) <==> s0.contains_key(k) || k == epoch_key()
                            || k == private_key_key()
                    &&& forall|k: Seq<u8>| #[trigger]
                        s0.contains_key(k) ==> m.store_view()[k] == s0[k]
                }
                &&& s0.contains_key(epoch_key()) && !binds_epoch(s0[epoch_key()], epoch) ==> (r
                    matches Err(MixKeyError::LoadCacheFailed) || r matches Err(
                    MixKeyError::StoreError,
                ))
                &&& r matches Err(MixKeyError::LoadCacheFailed) ==> s0.contains_key(epoch_key())
                    && !binds_epoch(s0[epoch_key()], epoch)
                &&& r matches Err(MixKeyError::KeyError(_)) ==> s0.contains_key(private_key_key())
                    && s0[private_key_key()].len() != PRIVATE_KEY_SIZE
                &&& r matches Err(MixKeyError::IoError(_)) ==> !s0.contains_key(private_key_key())
                &&& r matches Err(MixKeyError::CreateCacheFailed) ==> !s0.contains_key(epoch_key())
                    || !s0.contains_key(private_key_key()) || spec_filter_size(
                    expected_items as int,
                ) > usize::MAX
                &&& r matches Err(e) ==> !(e is InvalidClock)
                &&& s0.contains_key(epoch_key()) && binds_epoch(s0[epoch_key()], epoch)
                    && s0.contains_key(private_key_key()) && s0[private_key_key()].len()
                    == PRIVATE_KEY_SIZE && spec_filter_size(expected_items as int) <= usize::MAX
                    ==> (r is Ok || r matches Err(MixKeyError::StoreError))
            }),
    {
        let mut cache = cache;
        let ghost s0 = store_entries(cache);
        let items = expected_items;
        let ekey: Vec<u8> = vec![101u8, 112, 111, 99, 104];
        assert(ekey@ == epoch_key());
        let record = match store_get(&cache, ekey.as_slice()) {
            Ok(o) => o,
            Err(_) => {
                return Err(MixKeyError::StoreError);
            },
        };
        match check_epoch_record(&record, epoch) {
            Ok(true) => {
                let raw = write_le_u64(epoch);
                if store_put(&mut cache, ekey.as_slice(), raw.as_slice()).is_err() {
                    return Err(MixKeyError::CreateCacheFailed);
                }
            },
            Ok(false) => {},
            Err(e) => {
                return Err(e);
            },
        }
        assert(store_entries(cache).dom() =~= s0.dom().insert(ekey@));
        assert(forall|k: Seq<u8>| #[trigger]
            s0.contains_key(k) ==> store_entries(cache)[k] == s0[k]);
        assert(binds_epoch(store_entries(cache)[ekey@], epoch));
        let ghost s1 = store_entries(cache);
        let pkey: Vec<u8> = vec![112u8, 114, 105, 118, 97, 116, 101, 95, 107, 101, 121];
        assert(pkey@ == private_key_key());
        assert(pkey@ != ekey@) by {
            assert(pkey@.len() != ekey@.len());
        }
        let stored = match store_get(&cache, pkey.as_slice()) {
            Ok(o) => o,
            Err(_) => {
                return Err(MixKeyError::StoreError);
            },
        };
        let private_key = match stored {
            Some(blob) => match load_private_key(blob.as_slice()) {
                Ok(k) => k,
                Err(e) => {
                    return Err(e);
                },
            },
            None => {
                let mut rng = match os_rng() {
                    Ok(g) => g,
                    Err(e) => {
                        return Err(MixKeyError::IoError(e));
                    },
                };
                let k = match key_generate(&mut rng) {
                    Ok(k) => k,
                    Err(e) => {
                        return Err(MixKeyError::KeyError(e));
                    },
                };
                let raw = key_to_vec(&k);
                if store_put(&mut cache, pkey.as_slice(), raw.as_slice()).is_err() {
                    return Err(MixKeyError::CreateCacheFailed);
                }
                k
            },
        };
        assert(store_entries(cache).dom() =~= s1.dom().insert(pkey@));
        assert(forall|k: Seq<u8>| #[trigger]
            s1.contains_key(k) ==> store_entries(cache)[k] == s1[k]);
        let keys = match store_keys(&cache) {
            Ok(ks) => ks,
            Err(_) => {
                return Err(MixKeyError::StoreError);
            },
        };
        let bits = filter_size(items);
        if bits > usize::MAX as u64 {
            return Err(MixKeyError::CreateCacheFailed);
        }
        let mut filter = filter_new(bits, FILTER_HASHES);
        let ghost stored_keys = keys@.map_values(|k: Vec<u8>| k@);
        let mut i: usize = 0;
        while i < keys.len()
            invariant
                i <= keys@.len(),
                stored_keys == keys@.map_values(|k: Vec<u8>| k@),
                filter_bits(filter) == bits,
                bits > 0,
                filter_items(filter) == stored_keys.take(i as int).to_set(),
            decreases keys@.len() - i,
        {
            filter_insert(&mut filter, keys[i].as_slice());
            assert(stored_keys.take(i as int + 1) =~= stored_keys.take(i as int).push(keys@[i as int]@));
            assert(stored_keys.take(i as int + 1).to_set() =~= stored_keys.take(i as int).to_set().insert(keys@[i as int]@)) by {
                assert forall|x: Seq<u8>| stored_keys.take(i as int + 1).to_set().contains(x) <==> stored_keys.take(i as int).to_set().insert(keys@[i as int]@).contains(x) by {
                    lemma_push_contains(stored_keys.take(i as int), keys@[i as int]@, x);
                }
            }
            i = i + 1;
        }
        assert(stored_keys.take(i as int) =~= stored_keys);
        Ok(MixKey { filter, cache, private_key, epoch })
    }

    /// The epoch this key is valid for.
    pub fn epoch(&self) -> (r: u64)
        ensures
            r == self.spec_epoch(),
    {
        self.epoch
    }

    /// The private key.
    pub fn private_key(&self) -> (r: &ecdh_wrapper::PrivateKey)
        ensures
            *r == self.spec_private_key(),
    {
        &self.private_key
    }

    /// The public key of the private key.
    pub fn public_key(&self) -> (r: ecdh_wrapper::PublicKey)
        ensures
            r == public_of(self.spec_private_key()),
    {
        key_public(&self.private_key)
    }

    /// Whether `tag` has been seen before by this key, that is whether the
    /// store holds it.
    ///
    /// The filter answers first: where it has never been given the tag, the
    /// store does not hold it and the tag is fresh. Otherwise the store
    /// decides: a stored tag is a replay; an unstored one (a false positive
    /// of the filter) is fresh. A fresh tag is given to the filter and
    /// written to the store. A failed store read or write is `StoreError`.
    pub fn is_replay(&mut self, tag: Tag) -> (r: Result<bool, MixKeyError>)
        requires
            old(self).wf(),
        ensures
            final(self).wf(),
            final(self).spec_epoch() == old(self).spec_epoch(),
            final(self).spec_private_key() == old(self).spec_private_key(),
            r matches Ok(b) ==> b == old(self).store_view().contains_key(tag@),
            replay_step(
                old(self).filter_view(),
                old(self).store_view(),
                final(self).filter_view(),
                final(self).store_view(),
                tag@,
                r,
            ),
    {
        let empty: Vec<u8> = Vec::new();
        assert(empty@ == Seq::<u8>::empty());
        let maybe_replay = filter_contains(&self.filter, tag.0.as_slice());
        if maybe_replay {
            match store_get(&self.cache, tag.0.as_slice()) {
                Ok(Some(_)) => {
                    return Ok(true);
                },
                Ok(None) => {},
                Err(_) => {
                    return Err(MixKeyError::StoreError);
                },
            }
        }
        filter_insert(&mut self.filter, tag.0.as_slice());
        match store_put(&mut self.cache, tag.0.as_slice(), empty.as_slice()) {
            Ok(()) => Ok(false),
            Err(_) => Err(MixKeyError::StoreError),
        }
    }

    /// Writes the store's buffered entries to disk. What the store holds is
    /// unchanged; a failed write is `StoreError`.
    pub fn flush(&mut self) -> (r: Result<(), MixKeyError>)
        requires
            old(self).wf(),
        ensures
            final(self).wf(),
            final(self).spec_epoch() == old(self).spec_epoch(),
            final(self).spec_private_key() == old(self).spec_private_key(),
            final(self).filter_view() == old(self).filter_view(),
            final(self).store_view() == old(self).store_view(),
            r is Err ==> (r->Err_0 is StoreError),
    {
        match store_flush(&mut self.cache) {
            Ok(_) => Ok(()),
            Err(_) => Err(MixKeyError::StoreError),
        }
    }
}

/// `x` is in `s` with `e` pushed exactly where it is in `s` or is `e`.
pub proof fn lemma_push_contains<T>(s: Seq<T>, e: T, x: T)
    ensures
        s.push(e).contains(x) <==> s.contains(x) || x == e,
{
    if s.contains(x) {
        let k = choose|k: int| 0 <= k < s.len() && s[k] == x;
        assert(s.push(e)[k] == x);
    }
    if x == e {
        assert(s.push(e)[s.len() as int] == e);
    }
    if s.push(e).contains(x) {
        let k = choose|k: int| 0 <= k < s.push(e).len() && s.push(e)[k] == x;
        if k < s.len() {
            assert(s[k] == x);
        }
    }
}

} // verus!
