//! Per-epoch mix keys and replay detection for a Sphinx mix node.
//!
//! A [`MixKey`] owns the private key of one epoch together with a two-tier
//! replay-tag set: an in-memory bloom filter in front of a durable key-value
//! store. [`MixKeys`] is the ring of live mix keys, driven by an epoch clock.
pub mod constants;
pub mod errors;
pub mod outside;
pub mod mix_key;
pub mod ring;

pub use mix_key::{MixKey, Tag};
pub use ring::MixKeys;
