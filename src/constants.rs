use vstd::prelude::*;

verus! {

/// Flush the store's writeback cache every 10 seconds.
pub const MIX_KEY_FLUSH_FREQUENCY: u64 = 10000;

/// Allow a mix expiration grace period of 2 minutes.
pub const MIX_KEY_GRACE_PERIOD: u16 = 120;

/// Size in bytes of a Sphinx replay tag.
pub const SPHINX_REPLAY_TAG_SIZE: usize = 32;

/// Size in bytes of an ECDH private key.
pub const PRIVATE_KEY_SIZE: usize = 32;

/// Size in bytes of a serialized Sphinx packet.
pub const PACKET_SIZE: u64 = 52000;

/// Number of store operations after which the store writes a snapshot.
pub const SNAPSHOT_AFTER_OPS: u64 = 100_000;

/// The longest epoch duration, in seconds, that the ring takes from its
/// clock.
pub const MAX_EPOCH_PERIOD: u64 = 1_000_000_000;

/// The smallest memory budget, in bytes, that the store accepts.
pub const MIN_CACHE_CAPACITY: u64 = 256;

/// Whether the store compresses what it writes.
pub const STORE_COMPRESSION: bool = false;

/// Bits of bloom filter per expected item. With seven hash functions, ten
/// bits per item keep the false-positive rate under one percent at the
/// expected load.
pub const FILTER_BITS_PER_ITEM: u64 = 10;

/// Number of hash functions of the bloom filter.
pub const FILTER_HASHES: u32 = 7;

} // verus!
