use std::collections::HashMap;
use std::sync::{Arc, Mutex};

use ecdh_wrapper::PrivateKey;
use mix_key::constants::SPHINX_REPLAY_TAG_SIZE;
use mix_key::errors::MixKeyError;
use mix_key::mix_key::{
    cache_capacity, check_epoch_record, epoch_matches, expected_items, filter_size,
    load_private_key, store_dir,
};
use mix_key::{MixKey, MixKeys, Tag};
use rand::os::OsRng;
use rand::Rng;
use tempfile::TempDir;

const LINE_RATE: u64 = 128974848;

fn random_tag() -> Tag {
    let mut rng = OsRng::new().unwrap();
    let mut raw = [0u8; SPHINX_REPLAY_TAG_SIZE];
    rng.fill_bytes(&mut raw);
    Tag(raw)
}

fn dir_string(dir: &TempDir) -> String {
    dir.path().to_str().unwrap().to_string()
}

#[test]
fn basic_mix_keys_test() {
    let clock = epoch::Clock::new_katzenpost();
    let base_dir = TempDir::new().unwrap().path().to_str().unwrap().to_string();
    let line_rate = 128974848;
    let mix_keys = MixKeys::new(clock, 3, base_dir, line_rate).unwrap();

    let mut local_keys: HashMap<u64, Arc<Mutex<MixKey>>> = HashMap::new();

    mix_keys.shadow(&mut local_keys);
    for k in mix_keys.epochs().iter() {
        assert!(local_keys.contains_key(k));
    }
}

#[test]
fn basic_mix_key_test() {
    let cache_dir = TempDir::new().unwrap();
    {
        let cache_dir_path = cache_dir.path();
        let epoch_duration = 1;
        let epoch = 1;
        let mut mix_key = MixKey::new(
            128974848,
            epoch,
            epoch_duration,
            &cache_dir_path.to_str().unwrap().to_string(),
        )
        .unwrap();
        let tag = random_tag();

        assert_eq!(mix_key.is_replay(tag.clone()).unwrap(), false);
        assert_eq!(mix_key.is_replay(tag.clone()).unwrap(), true);
        assert_eq!(mix_key.is_replay(tag).unwrap(), true);

        mix_key.flush().unwrap();
        let mut priv_key = PrivateKey::default();
        priv_key.load_bytes(&mix_key.private_key().to_vec()).unwrap();
        drop(mix_key);

        let new_mix_key = MixKey::new(
            128974848,
            epoch,
            epoch_duration,
            &cache_dir_path.to_str().unwrap().to_string(),
        )
        .unwrap();
        assert_eq!(epoch, new_mix_key.epoch());
        assert_eq!(priv_key, *new_mix_key.private_key());
    }
    TempDir::close(cache_dir).unwrap();
}

#[test]
fn fresh_then_replay_among_other_tags() {
    let dir = TempDir::new().unwrap();
    let mut key = MixKey::new(LINE_RATE, 1, 1, &dir_string(&dir)).unwrap();
    let a = random_tag();
    let mut b = random_tag();
    b.0[0] = a.0[0].wrapping_add(1);
    assert_eq!(key.is_replay(a).unwrap(), false);
    assert_eq!(key.is_replay(b).unwrap(), false);
    assert_eq!(key.is_replay(a).unwrap(), true);
    assert_eq!(key.is_replay(b).unwrap(), true);
}

#[test]
fn restart_preserves_private_key() {
    let dir = TempDir::new().unwrap();
    let before = {
        let mut key = MixKey::new(LINE_RATE, 1, 1, &dir_string(&dir)).unwrap();
        assert_eq!(key.is_replay(random_tag()).unwrap(), false);
        key.flush().unwrap();
        key.private_key().to_vec()
    };
    let key = MixKey::new(LINE_RATE, 1, 1, &dir_string(&dir)).unwrap();
    assert_eq!(key.private_key().to_vec(), before);
    assert_eq!(key.public_key(), key.private_key().public_key());
}

#[test]
fn epoch_mismatch_fails_to_load() {
    let dir = TempDir::new().unwrap();
    {
        let key = MixKey::new(LINE_RATE, 1, 1, &dir_string(&dir)).unwrap();
        assert_eq!(key.epoch(), 1);
    }
    // The directory of epoch 2 holds a record that binds it to epoch 1.
    {
        let db = sled::open(dir.path().join("mix_key.2")).unwrap();
        db.insert("epoch", 1u64.to_le_bytes().to_vec()).unwrap();
        db.flush().unwrap();
    }
    let r = MixKey::new(LINE_RATE, 2, 1, &dir_string(&dir));
    assert!(matches!(r, Err(MixKeyError::LoadCacheFailed)));
}

#[test]
fn stored_key_of_wrong_size_is_rejected() {
    let dir = TempDir::new().unwrap();
    {
        let db = sled::open(dir.path().join("mix_key.4")).unwrap();
        db.insert("epoch", 4u64.to_le_bytes().to_vec()).unwrap();
        db.insert("private_key", vec![1u8, 2, 3]).unwrap();
        db.flush().unwrap();
    }
    let r = MixKey::new(LINE_RATE, 4, 1, &dir_string(&dir));
    assert!(matches!(r, Err(MixKeyError::KeyError(_))));
}

#[test]
fn ring_population() {
    let clock = epoch::Clock::new_katzenpost();
    let e = clock.now().epoch;
    let dir = TempDir::new().unwrap();
    let ring = MixKeys::new(clock, 3, dir_string(&dir), LINE_RATE).unwrap();
    let mut epochs = ring.epochs();
    epochs.sort();
    assert_eq!(epochs, vec![e, e + 1, e + 2]);
    assert!(ring.public_key(e + 5).is_none());
    assert!(ring.public_key(e).is_some());
}

#[test]
fn snapshot_reconciliation_shares_handles() {
    let clock = epoch::Clock::new_katzenpost();
    let e = clock.now().epoch;
    let dir = TempDir::new().unwrap();
    let ring = MixKeys::new(clock, 3, dir_string(&dir), LINE_RATE).unwrap();
    let mut dst: HashMap<u64, Arc<Mutex<MixKey>>> = HashMap::new();
    ring.shadow(&mut dst);
    let mut keys: Vec<u64> = dst.keys().cloned().collect();
    keys.sort();
    assert_eq!(keys, vec![e, e + 1, e + 2]);
    for k in keys.iter() {
        assert!(Arc::ptr_eq(&dst[k], &ring.handle(*k).unwrap()));
    }
}

#[test]
fn snapshot_is_idempotent() {
    let clock = epoch::Clock::new_katzenpost();
    let dir = TempDir::new().unwrap();
    let ring = MixKeys::new(clock, 3, dir_string(&dir), LINE_RATE).unwrap();
    let mut dst: HashMap<u64, Arc<Mutex<MixKey>>> = HashMap::new();
    ring.shadow(&mut dst);
    let first: Vec<(u64, Arc<Mutex<MixKey>>)> =
        dst.iter().map(|(k, v)| (*k, Arc::clone(v))).collect();
    ring.shadow(&mut dst);
    assert_eq!(dst.len(), first.len());
    for (k, v) in first.iter() {
        assert!(Arc::ptr_eq(&dst[k], v));
    }
}

#[test]
fn snapshot_drops_epochs_the_ring_lacks() {
    let clock = epoch::Clock::new_katzenpost();
    let e = clock.now().epoch;
    let dir = TempDir::new().unwrap();
    let other = TempDir::new().unwrap();
    let ring = MixKeys::new(clock, 2, dir_string(&dir), LINE_RATE).unwrap();
    let stray = MixKey::new(LINE_RATE, e + 7, 1, &dir_string(&other)).unwrap();
    let mut dst: HashMap<u64, Arc<Mutex<MixKey>>> = HashMap::new();
    dst.insert(e + 7, Arc::new(Mutex::new(stray)));
    ring.shadow(&mut dst);
    let mut keys: Vec<u64> = dst.keys().cloned().collect();
    keys.sort();
    assert_eq!(keys, vec![e, e + 1]);
}

#[test]
fn generate_adds_only_missing_epochs() {
    let clock = epoch::Clock::new_katzenpost();
    let e = clock.now().epoch;
    let dir = TempDir::new().unwrap();
    let mut ring = MixKeys::new(clock, 3, dir_string(&dir), LINE_RATE).unwrap();
    let kept = ring.handle(e + 1).unwrap();
    assert_eq!(ring.generate(e).unwrap(), false);
    assert_eq!(ring.generate(e + 1).unwrap(), true);
    let mut epochs = ring.epochs();
    epochs.sort();
    assert_eq!(epochs, vec![e, e + 1, e + 2, e + 3]);
    assert!(Arc::ptr_eq(&kept, &ring.handle(e + 1).unwrap()));
}

#[test]
fn prune_drops_epochs_before_the_grace_epoch() {
    let clock = epoch::Clock::new_katzenpost();
    let e = clock.now().epoch;
    let dir = TempDir::new().unwrap();
    let mut ring = MixKeys::new(clock, 3, dir_string(&dir), LINE_RATE).unwrap();
    assert_eq!(ring.prune(), false);
    assert_eq!(ring.prune_before(e + 1), false);
    assert_eq!(ring.prune_before(e + 2), true);
    let mut epochs = ring.epochs();
    epochs.sort();
    assert_eq!(epochs, vec![e + 1, e + 2]);
    assert!(ring.public_key(e).is_none());
    assert_eq!(ring.prune_before(0), false);
}

#[test]
fn sizing_formulas() {
    assert_eq!(expected_items(LINE_RATE, 1), 2480);
    assert_eq!(expected_items(LINE_RATE, 3), 7440);
    assert_eq!(expected_items(1000, 1), 0);
    assert_eq!(expected_items(u64::MAX, u64::MAX), u32::MAX);
    assert_eq!(filter_size(0), 10);
    assert_eq!(filter_size(2480), 24800);
    assert_eq!(cache_capacity(LINE_RATE, 1), 2480 * 32 / 2);
    assert_eq!(cache_capacity(LINE_RATE, 10800), 26787083 * 32 / 2);
    assert_eq!(cache_capacity(u64::MAX, u64::MAX), u64::MAX);
    assert_eq!(cache_capacity(1000, 1), 256);
    assert_eq!(cache_capacity(LINE_RATE, 0), 256);
}

#[test]
fn epoch_record_matching() {
    assert!(epoch_matches(&7u64.to_le_bytes(), 7));
    assert!(epoch_matches(&[1, 2, 0, 0, 0, 0, 0, 0], 513));
    assert!(!epoch_matches(&7u64.to_be_bytes(), 7));
    assert!(!epoch_matches(&[7, 0, 0, 0], 7));
    assert!(!epoch_matches(&[], 0));
}

#[test]
fn error_messages() {
    assert_eq!(MixKeyError::LoadCacheFailed.message(), "Failed to load cache.");
    assert_eq!(MixKeyError::CreateCacheFailed.message(), "Failed to create cache.");
    assert_eq!(MixKeyError::StoreError.message(), "Failed to set page cache key.");
    assert_eq!(MixKeyError::InvalidClock.message(), "Invalid epoch clock.");
}

#[test]
fn restart_preserves_observations() {
    let dir = TempDir::new().unwrap();
    let tag = random_tag();
    {
        let mut key = MixKey::new(LINE_RATE, 1, 1, &dir_string(&dir)).unwrap();
        assert_eq!(key.is_replay(tag).unwrap(), false);
        assert_eq!(key.is_replay(tag).unwrap(), true);
        assert_eq!(key.is_replay(tag).unwrap(), true);
        key.flush().unwrap();
    }
    let mut key = MixKey::new(LINE_RATE, 1, 1, &dir_string(&dir)).unwrap();
    assert_eq!(key.is_replay(tag).unwrap(), true);
    let mut other = random_tag();
    other.0[0] = tag.0[0].wrapping_add(1);
    assert_eq!(key.is_replay(other).unwrap(), false);
}

#[test]
fn zero_period_clock_is_rejected() {
    let dir = TempDir::new().unwrap();
    let r = MixKeys::new(epoch::Clock::default(), 3, dir_string(&dir), LINE_RATE);
    assert!(matches!(r, Err(MixKeyError::InvalidClock)));
}

#[test]
fn empty_ring_needs_no_store() {
    let dir = TempDir::new().unwrap();
    let ring = MixKeys::new(epoch::Clock::new_katzenpost(), 0, dir_string(&dir), LINE_RATE).unwrap();
    assert!(ring.epochs().is_empty());
}

#[test]
fn store_directory_names() {
    assert_eq!(store_dir(&"/tmp/keys".to_string(), 1), "/tmp/keys/mix_key.1");
    assert_eq!(store_dir(&"base".to_string(), 1234567890), "base/mix_key.1234567890");
    assert_eq!(store_dir(&"".to_string(), 0), "mix_key.0");
    assert_eq!(store_dir(&"d".to_string(), u64::MAX), "d/mix_key.18446744073709551615");
}

#[test]
fn epoch_record_decisions() {
    assert!(matches!(check_epoch_record(&None, 5), Ok(true)));
    assert!(matches!(check_epoch_record(&Some(5u64.to_le_bytes().to_vec()), 5), Ok(false)));
    assert!(matches!(
        check_epoch_record(&Some(6u64.to_le_bytes().to_vec()), 5),
        Err(MixKeyError::LoadCacheFailed)
    ));
    assert!(matches!(check_epoch_record(&Some(vec![]), 0), Err(MixKeyError::LoadCacheFailed)));
}

#[test]
fn private_key_loading() {
    let raw = [7u8; 32];
    let k = load_private_key(&raw).unwrap();
    assert_eq!(k.to_vec(), raw.to_vec());
    assert!(matches!(load_private_key(&[1, 2, 3]), Err(MixKeyError::KeyError(_))));
    assert!(matches!(load_private_key(&[0u8; 33]), Err(MixKeyError::KeyError(_))));
}

#[test]
fn tiny_line_rate_still_opens() {
    let dir = TempDir::new().unwrap();
    let mut key = MixKey::new(1000, 1, 0, &dir_string(&dir)).unwrap();
    let tag = random_tag();
    assert_eq!(key.is_replay(tag).unwrap(), false);
    assert_eq!(key.is_replay(tag).unwrap(), true);
}

#[test]
fn overlong_period_clock_is_rejected() {
    let dir = TempDir::new().unwrap();
    let clock = epoch::Clock::new(epoch::Config { epoch: 1, period: u64::MAX });
    let r = MixKeys::new(clock, 3, dir_string(&dir), LINE_RATE);
    assert!(matches!(r, Err(MixKeyError::InvalidClock)));
}

#[test]
fn from_store_keeps_stored_entries() {
    let dir = TempDir::new().unwrap();
    let tag = random_tag();
    let raw = [9u8; 32];
    let db = sled::open(dir.path().join("store")).unwrap();
    db.insert("epoch", 3u64.to_le_bytes().to_vec()).unwrap();
    db.insert("private_key", raw.to_vec()).unwrap();
    db.insert(tag.0.to_vec(), Vec::<u8>::new()).unwrap();
    let mut key = MixKey::from_store(db, 3, 10).unwrap();
    assert_eq!(key.epoch(), 3);
    assert_eq!(key.private_key().to_vec(), raw.to_vec());
    assert_eq!(key.is_replay(tag).unwrap(), true);
}

#[test]
fn from_store_rejects_a_foreign_epoch() {
    let dir = TempDir::new().unwrap();
    let db = sled::open(dir.path().join("store")).unwrap();
    db.insert("epoch", 4u64.to_le_bytes().to_vec()).unwrap();
    let r = MixKey::from_store(db, 3, 10);
    assert!(matches!(r, Err(MixKeyError::LoadCacheFailed)));
}
