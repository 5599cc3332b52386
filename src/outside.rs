//! The outside collaborators: the embedded store, the bloom filter, the ECDH
//! keys, the randomness source, the epoch clock and little-endian encoding.
use vstd::prelude::*;

use crate::constants::PRIVATE_KEY_SIZE;

verus! {

#[verifier::external_type_specification]
#[verifier::external_body]
pub struct ExDb(sled::Db);

#[verifier::external_type_specification]
#[verifier::external_body]
pub struct ExSledError(sled::Error);

#[verifier::external_type_specification]
#[verifier::external_body]
#[verifier::reject_recursive_types(R)]
#[verifier::reject_recursive_types(S)]
pub struct ExBloomFilter<R, S>(bloom::BloomFilter<R, S>);

#[verifier::external_type_specification]
#[verifier::external_body]
pub struct ExPrivateKey(ecdh_wrapper::PrivateKey);

#[verifier::external_type_specification]
#[verifier::external_body]
pub struct ExPublicKey(ecdh_wrapper::PublicKey);

#[verifier::external_type_specification]
#[verifier::external_body]
pub struct ExKeyError(ecdh_wrapper::errors::KeyError);

#[verifier::external_type_specification]
#[verifier::external_body]
pub struct ExIoError(std::io::Error);

#[verifier::external_type_specification]
#[verifier::external_body]
pub struct ExOsRng(rand::os::OsRng);

#[verifier::external_type_specification]
#[verifier::external_body]
pub struct ExClock(epoch::Clock);

#[verifier::external_type_specification]
#[verifier::external_body]
#[verifier::reject_recursive_types(T)]
pub struct ExMutex<T: ?Sized>(std::sync::Mutex<T>);

/// The key-value pairs that a store holds.
pub uninterp spec fn store_entries(db: sled::Db) -> Map<Seq<u8>, Seq<u8>>;

/// The items that have been inserted into a bloom filter.
pub uninterp spec fn filter_items(f: bloom::BloomFilter) -> Set<Seq<u8>>;

/// The number of bits of a bloom filter.
pub uninterp spec fn filter_bits(f: bloom::BloomFilter) -> nat;

/// The bytes of a private key.
pub uninterp spec fn key_bytes(k: ecdh_wrapper::PrivateKey) -> Seq<u8>;

/// The public half of a private key.
pub uninterp spec fn public_of(k: ecdh_wrapper::PrivateKey) -> ecdh_wrapper::PublicKey;

/// The epoch duration, in seconds, that a clock was configured with.
pub uninterp spec fn period_of(c: epoch::Clock) -> u64;

/// Relies on sled::Config::open: opens (or creates) the store in the
/// directory `dir` with the given memory budget, compression setting and
/// flush period. Its cache asserts a budget of at least 256 bytes.
#[verifier::external_body]
#[allow(deprecated)]
pub(crate) fn store_open(
    dir: &String,
    cache_capacity: u64,
    use_compression: bool,
    flush_ms: u64,
    snapshot_ops: u64,
) -> (r: Result<sled::Db, sled::Error>)
    requires
        cache_capacity >= 256,
{
    sled::Config::new()
        .path(dir)
        .cache_capacity(cache_capacity)
        .use_compression(use_compression)
        .flush_every_ms(Some(flush_ms))
        .snapshot_after_ops(snapshot_ops)
        .open()
}

/// Relies on sled::Tree::get: `Some` with the stored value when the key is
/// present, `None` when it is absent.
#[verifier::external_body]
pub(crate) fn store_get(db: &sled::Db, key: &[u8]) -> (r: Result<Option<Vec<u8>>, sled::Error>)
    ensures
        r matches Ok(Some(v)) ==> store_entries(*db).contains_key(key@) && v@ == store_entries(
            *db,
        )[key@],
        r matches Ok(None) ==> !store_entries(*db).contains_key(key@),
{
    db.get(key).map(|o| o.map(|v| v.to_vec()))
}

/// Relies on sled::Tree::insert: on success the key maps to the value; a
/// failed insert of the one key took effect or did not, and touched no other
/// key. The store is taken by `&mut`: each store is written through the one
/// handle that owns it.
#[verifier::external_body]
pub(crate) fn store_put(db: &mut sled::Db, key: &[u8], value: &[u8]) -> (r: Result<(), sled::Error>)
    ensures
        r is Ok ==> store_entries(*final(db)) == store_entries(*old(db)).insert(key@, value@),
        r is Err ==> store_entries(*final(db)) == store_entries(*old(db)) || store_entries(
            *final(db),
        ) == store_entries(*old(db)).insert(key@, value@),
{
    db.insert(key, value).map(|_| ())
}

/// Relies on sled::Tree::iter: every key that the store holds.
#[verifier::external_body]
pub(crate) fn store_keys(db: &sled::Db) -> (r: Result<Vec<Vec<u8>>, sled::Error>)
    ensures
        r matches Ok(ks) ==> ks@.map_values(|k: Vec<u8>| k@).to_set() == store_entries(*db).dom(),
{
    db.iter().keys().map(|k| k.map(|k| k.to_vec())).collect()
}

/// Relies on sled::Tree::flush: writes dirty buffers to disk; what the
/// store holds is unchanged.
#[verifier::external_body]
pub(crate) fn store_flush(db: &mut sled::Db) -> (r: Result<usize, sled::Error>)
    ensures
        store_entries(*final(db)) == store_entries(*old(db)),
{
    db.flush()
}

/// Relies on bloom::BloomFilter::with_size: an empty filter of `num_bits`
/// bits and `num_hashes` hash functions.
#[verifier::external_body]
pub(crate) fn filter_new(num_bits: u64, num_hashes: u32) -> (r: bloom::BloomFilter)
    requires
        num_bits <= usize::MAX,
    ensures
        filter_items(r) == Set::<Seq<u8>>::empty(),
        filter_bits(r) == num_bits,
{
    bloom::BloomFilter::with_size(num_bits as usize, num_hashes)
}

/// Relies on bloom's ASMS::contains: never false for an inserted item. It
/// divides by the number of bits, which must not be zero.
#[verifier::external_body]
pub(crate) fn filter_contains(f: &bloom::BloomFilter, item: &[u8]) -> (r: bool)
    requires
        filter_bits(*f) > 0,
    ensures
        filter_items(*f).contains(item@) ==> r,
{
    bloom::ASMS::contains(f, &item)
}

/// Relies on bloom's ASMS::insert: the item becomes a member; the number of
/// bits is unchanged. It divides by the number of bits, which must not be
/// zero.
#[verifier::external_body]
pub(crate) fn filter_insert(f: &mut bloom::BloomFilter, item: &[u8])
    requires
        filter_bits(*old(f)) > 0,
    ensures
        filter_items(*final(f)) == filter_items(*old(f)).insert(item@),
        filter_bits(*final(f)) == filter_bits(*old(f)),
{
    bloom::ASMS::insert(f, &item);
}

/// Relies on ecdh_wrapper::PrivateKey::from_bytes: accepts exactly the byte
/// strings of the key size.
#[verifier::external_body]
pub(crate) fn key_from_bytes(b: &[u8]) -> (r: Result<ecdh_wrapper::PrivateKey, ecdh_wrapper::errors::KeyError>)
    ensures
        r is Ok <==> b@.len() == PRIVATE_KEY_SIZE,
        r matches Ok(k) ==> key_bytes(k) == b@,
{
    ecdh_wrapper::PrivateKey::from_bytes(b)
}

/// Relies on ecdh_wrapper::PrivateKey::generate: a key from the given
/// randomness source. It loads bytes of the key size, which never fails.
#[verifier::external_body]
pub(crate) fn key_generate(rng: &mut rand::os::OsRng) -> (r: Result<ecdh_wrapper::PrivateKey, ecdh_wrapper::errors::KeyError>)
    ensures
        r matches Ok(k) ==> key_bytes(k).len() == PRIVATE_KEY_SIZE,
        r is Ok,
{
    ecdh_wrapper::PrivateKey::generate(rng)
}

/// Relies on ecdh_wrapper::PrivateKey::to_vec: the key's bytes.
#[verifier::external_body]
pub(crate) fn key_to_vec(k: &ecdh_wrapper::PrivateKey) -> (r: Vec<u8>)
    ensures
        r@ == key_bytes(*k),
{
    k.to_vec()
}

/// Relies on ecdh_wrapper::PrivateKey::public_key: the key's public half.
#[verifier::external_body]
pub(crate) fn key_public(k: &ecdh_wrapper::PrivateKey) -> (r: ecdh_wrapper::PublicKey)
    ensures
        r == public_of(*k),
{
    k.public_key()
}

/// Relies on rand::os::OsRng::new: opens the operating system's randomness
/// source.
#[verifier::external_body]
pub(crate) fn os_rng() -> (r: Result<rand::os::OsRng, std::io::Error>) {
    rand::os::OsRng::new()
}

/// Relies on epoch::Clock::now: the number of the current epoch, which
/// depends on the time. It divides by the clock's period, which must not be
/// zero, and adds the period to the current epoch's start time, which stays
/// in range for a period of at most 10^9 seconds at any time after 2001.
#[verifier::external_body]
pub(crate) fn clock_epoch(c: &epoch::Clock) -> (r: u64)
    requires
        0 < period_of(*c) <= 1_000_000_000,
{
    c.now().epoch
}

/// Relies on epoch::Clock::period: the epoch duration in seconds.
#[verifier::external_body]
pub(crate) fn clock_period(c: &epoch::Clock) -> (r: u64)
    ensures
        r == period_of(*c),
{
    c.period()
}

/// The unsigned integer that eight bytes encode, least significant first.
pub open spec fn le_u64(b: Seq<u8>) -> int {
    b[0] as int + b[1] as int * 0x100 + b[2] as int * 0x1_0000 + b[3] as int * 0x100_0000
        + b[4] as int * 0x1_0000_0000 + b[5] as int * 0x100_0000_0000 + b[6] as int
        * 0x1_0000_0000_0000 + b[7] as int * 0x100_0000_0000_0000
}

/// Relies on byteorder::LittleEndian::read_u64: decodes the first eight
/// bytes. It panics on fewer.
#[verifier::external_body]
pub(crate) fn read_le_u64(b: &[u8]) -> (r: u64)
    requires
        b@.len() >= 8,
    ensures
        r == le_u64(b@),
{
    <byteorder::LittleEndian as byteorder::ByteOrder>::read_u64(b)
}

/// Relies on byteorder::LittleEndian::write_u64: the eight bytes that encode
/// `n`.
#[verifier::external_body]
pub(crate) fn write_le_u64(n: u64) -> (r: Vec<u8>)
    ensures
        r@.len() == 8,
        le_u64(r@) == n,
{
    let mut raw = vec![0u8; 8];
    <byteorder::LittleEndian as byteorder::ByteOrder>::write_u64(&mut raw, n);
    raw
}

/// Relies on std::sync::Mutex::new: a lock around the value.
#[verifier::external_body]
pub(crate) fn new_mutex<T>(t: T) -> (r: std::sync::Mutex<T>) {
    std::sync::Mutex::new(t)
}

/// Relies on std::sync::Arc::clone: another handle to the same value.
#[verifier::external_body]
pub(crate) fn share<T>(h: &std::sync::Arc<T>) -> (r: std::sync::Arc<T>)
    ensures
        r == *h,
{
    std::sync::Arc::clone(h)
}

} // verus!
