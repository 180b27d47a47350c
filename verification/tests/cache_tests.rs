use cache_ro::{Cache, CacheConfig, CacheError, FileAction, Registry, RunState};
use sha2::{Digest, Sha256};
use std::collections::HashMap;
use std::time::Duration;

fn config(persistent: bool, hash_prefix_length: usize) -> CacheConfig {
    CacheConfig {
        persistent,
        hash_prefix_length,
        dir_path: "./test_cache_temp".to_string(),
        cleanup_interval: Duration::from_millis(100),
    }
}

fn started(persistent: bool) -> (Registry, Cache) {
    let mut reg = Registry::new();
    let cache = Cache::new(&mut reg, config(persistent, 2)).unwrap();
    cache.install(&mut reg);
    (reg, cache)
}

fn bincode_config() -> bincode::config::Configuration<bincode::config::BigEndian> {
    bincode::config::standard()
        .with_big_endian()
        .with_variable_int_encoding()
}

#[test]
fn test_config_default() {
    let c = CacheConfig::default();
    assert!(c.persistent);
    assert_eq!(c.hash_prefix_length, 2);
    assert_eq!(c.dir_path, "cache_data");
    assert_eq!(c.cleanup_interval, Duration::from_secs(10));
}

#[test]
fn test_config_clone_keeps_fields() {
    let c = config(false, 7);
    let d = c.clone();
    assert_eq!(d.persistent, false);
    assert_eq!(d.hash_prefix_length, 7);
    assert_eq!(d.dir_path, "./test_cache_temp");
    assert_eq!(d.cleanup_interval, Duration::from_millis(100));
}

#[test]
fn test_instance_before_new_fails() {
    let reg = Registry::new();
    assert_eq!(reg.state(), RunState::Stopped);
    let r = Cache::instance(&reg);
    assert_eq!(r.err(), Some(CacheError::NotRunning));
    assert_eq!(CacheError::NotRunning.message(), "Cache::new not running");
}

#[test]
fn test_new_refused_while_running() {
    let mut reg = Registry::new();
    let cache = Cache::new(&mut reg, config(false, 2)).unwrap();
    assert_eq!(reg.state(), RunState::Running);
    assert_eq!(cache.config().hash_prefix_length, 2);
    let again = Cache::new(&mut reg, config(true, 3));
    assert_eq!(again.err(), Some(CacheError::AlreadyRunning));
    assert_eq!(CacheError::AlreadyRunning.message(), "Cache is running");
    assert_eq!(reg.state(), RunState::Running);
}

#[test]
fn test_instance_after_install_and_drop() {
    let mut reg = Registry::new();
    let cache = Cache::new(&mut reg, config(false, 5)).unwrap();
    assert!(Cache::instance(&reg).is_err());
    cache.install(&mut reg);
    let inst = Cache::instance(&reg).unwrap();
    assert_eq!(inst.config().hash_prefix_length, 5);
    assert_eq!(inst.config().persistent, false);
    cache.set_at(&mut reg, "k", vec![1, 2], 100, 0);
    Cache::drop(&mut reg);
    assert_eq!(reg.state(), RunState::Closing);
    assert_eq!(Cache::instance(&reg).err(), Some(CacheError::NotRunning));
    assert_eq!(cache.len(&reg), 0);
    // Still closing until the background cleanup has seen the stop.
    assert_eq!(Cache::new(&mut reg, config(false, 2)).err(), Some(CacheError::AlreadyRunning));
    assert!(!reg.cleanup_tick());
    assert_eq!(reg.state(), RunState::Stopped);
    assert!(Cache::new(&mut reg, config(false, 2)).is_ok());
}

#[test]
fn test_cleanup_tick_while_running() {
    let (mut reg, _cache) = started(false);
    assert!(reg.cleanup_tick());
    assert_eq!(reg.state(), RunState::Running);
}

#[test]
fn test_set_get_at_until_expiry() {
    let (mut reg, cache) = started(false);
    cache.set_at(&mut reg, "key1", b"value1".to_vec(), 10_000, 1_000);
    assert_eq!(cache.get_at(&reg, "key1", 1_000), Some(b"value1".to_vec()));
    assert_eq!(cache.get_at(&reg, "key1", 10_999), Some(b"value1".to_vec()));
    assert_eq!(cache.get_at(&reg, "key1", 11_000), None);
    assert_eq!(cache.get_at(&reg, "other", 1_000), None);
}

#[test]
fn test_set_overwrites() {
    let (mut reg, cache) = started(false);
    cache.set_at(&mut reg, "k", vec![1], 50, 0);
    cache.set_at(&mut reg, "k", vec![2, 3], 500, 100);
    assert_eq!(cache.get_at(&reg, "k", 200), Some(vec![2, 3]));
    assert_eq!(cache.len(&reg), 1);
}

#[test]
fn test_remove_and_clear() {
    let (mut reg, cache) = started(false);
    assert!(cache.is_empty(&reg));
    cache.set_at(&mut reg, "key1", b"value1".to_vec(), 10_000, 0);
    assert_eq!(cache.get_at(&reg, "key1", 1), Some(b"value1".to_vec()));
    cache.remove(&mut reg, "key1");
    assert_eq!(cache.get_at(&reg, "key1", 1), None);
    cache.set_at(&mut reg, "key2", b"value2".to_vec(), 10_000, 0);
    cache.set_at(&mut reg, "key3", b"value3".to_vec(), 10_000, 0);
    assert_eq!(cache.len(&reg), 2);
    assert!(!cache.is_empty(&reg));
    cache.clear(&mut reg);
    assert_eq!(cache.len(&reg), 0);
    assert!(cache.is_empty(&reg));
}

#[test]
fn test_expired_entries_still_counted() {
    let (mut reg, cache) = started(false);
    cache.set_at(&mut reg, "old", vec![0], 0, 10);
    assert_eq!(cache.get_at(&reg, "old", 10), None);
    assert_eq!(cache.len(&reg), 1);
}

#[test]
fn test_expire_at_remaining() {
    let (mut reg, cache) = started(false);
    cache.set_at(&mut reg, "check_key", vec![9], 1_000, 5_000);
    assert_eq!(cache.expire_at(&reg, "check_key", 5_000), Some(1_000));
    assert_eq!(cache.expire_at(&reg, "check_key", 5_600), Some(400));
    assert_eq!(cache.expire_at(&reg, "check_key", 6_000), None);
    assert_eq!(cache.expire_at(&reg, "missing", 0), None);
}

#[test]
fn test_expire_at_beyond_64_bits() {
    let (mut reg, cache) = started(false);
    let ttl: u128 = (1u128 << 64) + 5;
    cache.set_at(&mut reg, "far", vec![], ttl, 0);
    assert_eq!(cache.expire_at(&reg, "far", 0), Some(ttl));
    assert_eq!(cache.expire_at(&reg, "far", 10), Some(ttl - 10));
}

#[test]
fn test_expire_with_longest_duration() {
    let (mut reg, cache) = started(false);
    cache.set(&mut reg, "max", vec![1], Duration::MAX).unwrap();
    let left = cache.expire(&reg, "max").unwrap();
    assert!(left > Duration::MAX - Duration::from_secs(60));
    assert!(left.as_millis() <= Duration::MAX.as_millis());
    assert!(cache.get(&reg, "max").is_some());
}

#[test]
fn test_expire_saturates_beyond_longest_duration() {
    let (mut reg, cache) = started(false);
    cache.set_at(&mut reg, "huge", vec![1], u128::MAX - 1, 0);
    let left = cache.expire(&reg, "huge").unwrap();
    assert_eq!(left.as_millis(), Duration::MAX.as_millis());
}

#[test]
fn test_many_expiry_times() {
    let (mut reg, cache) = started(false);
    for i in 0..1000u128 {
        cache.set_at(&mut reg, &format!("temp_key {i}"), b"temp_value".to_vec(), i * 10, 0);
    }
    cache.remove(&mut reg, "temp_key 250");
    let t = 1000;
    assert!(cache.get_at(&reg, "temp_key 0", t).is_none());
    assert!(cache.get_at(&reg, "temp_key 30", t).is_none());
    assert!(cache.get_at(&reg, "temp_key 100", t).is_none());
    assert!(cache.get_at(&reg, "temp_key 250", t).is_none());
    assert!(cache.get_at(&reg, "temp_key 120", t).is_some());
    assert!(cache.get_at(&reg, "temp_key 200", t).is_some());
    assert!(cache.get_at(&reg, "temp_key 999", t).is_some());
    assert_eq!(cache.len(&reg), 999);
}

#[test]
fn test_expired_keys_at_lists_each_expired_key() {
    let (mut reg, cache) = started(false);
    cache.set_at(&mut reg, "short-1", vec![1], 50, 0);
    cache.set_at(&mut reg, "short-2", vec![2], 40, 0);
    cache.set_at(&mut reg, "long", vec![3], 10_000, 0);
    let mut keys = cache.expired_keys_at(&reg, 50);
    keys.sort();
    assert_eq!(keys, vec!["short-1".to_string(), "short-2".to_string()]);
    assert!(cache.expired_keys_at(&reg, 39).is_empty());
}

#[test]
fn test_sweep_expired_at_drops_only_expired() {
    let (mut reg, cache) = started(false);
    cache.set_at(&mut reg, "short-1", vec![1], 50, 0);
    cache.set_at(&mut reg, "short-2", vec![2], 40, 0);
    cache.set_at(&mut reg, "long", vec![3], 10_000, 0);
    let mut keys = cache.sweep_expired_at(&mut reg, 50);
    keys.sort();
    assert_eq!(keys, vec!["short-1".to_string(), "short-2".to_string()]);
    assert_eq!(cache.len(&reg), 1);
    assert_eq!(cache.get_at(&reg, "long", 50), Some(vec![3]));
    assert!(cache.sweep_expired_at(&mut reg, 50).is_empty());
}

#[test]
fn test_drop_without_cleanup_allows_new() {
    let mut reg = Registry::new();
    Cache::drop(&mut reg);
    assert_eq!(reg.state(), RunState::Stopped);
    Cache::drop(&mut reg);
    assert_eq!(reg.state(), RunState::Stopped);
    assert!(Cache::new(&mut reg, config(false, 2)).is_ok());
}

#[test]
fn test_install_needs_a_running_cache() {
    let mut reg = Registry::new();
    let cache = Cache::new(&mut reg, config(false, 2)).unwrap();
    Cache::drop(&mut reg);
    cache.install(&mut reg);
    assert_eq!(reg.state(), RunState::Stopped);
    assert!(Cache::instance(&reg).is_err());
    assert!(Cache::new(&mut reg, config(false, 2)).is_ok());
}

#[test]
fn test_abandoned_start_allows_new() {
    let mut reg = Registry::new();
    let cache = Cache::new(&mut reg, config(true, 2)).unwrap();
    assert_eq!(cache.load_file(&mut reg, &[0xff]), Err(CacheError::Decode));
    cache.abandon_start(&mut reg);
    assert_eq!(reg.state(), RunState::Stopped);
    assert!(Cache::instance(&reg).is_err());
    let again = Cache::new(&mut reg, config(true, 2)).unwrap();
    again.install(&mut reg);
    again.abandon_start(&mut reg);
    assert_eq!(reg.state(), RunState::Running);
}

#[test]
fn test_cleanup_does_not_change_reads() {
    let (mut reg, cache) = started(false);
    for i in 0..100u128 {
        cache.set_at(&mut reg, &format!("short-{i}"), vec![i as u8], 50, 0);
        cache.set_at(&mut reg, &format!("long-{i}"), vec![i as u8], 10_000, 0);
    }
    let before: Vec<_> = (0..100)
        .map(|i| cache.get_at(&reg, &format!("long-{i}"), 200))
        .collect();
    for key in cache.expired_keys_at(&reg, 200) {
        cache.remove(&mut reg, &key);
    }
    assert_eq!(cache.len(&reg), 100);
    for i in 0..100u128 {
        assert!(cache.get_at(&reg, &format!("short-{i}"), 200).is_none());
        assert_eq!(cache.get_at(&reg, &format!("long-{i}"), 200), before[i as usize]);
        assert_eq!(before[i as usize], Some(vec![i as u8]));
    }
}

#[test]
fn test_clock_set_get_expire() {
    let (mut reg, cache) = started(false);
    cache.set(&mut reg, "check_key", b"check_value".to_vec(), Duration::from_secs(1)).unwrap();
    assert_eq!(cache.get(&reg, "check_key"), Some(b"check_value".to_vec()));
    let remaining = cache.expire(&reg, "check_key").unwrap();
    assert!(remaining <= Duration::from_secs(1) && remaining > Duration::from_secs(0));
    cache.set(&mut reg, "temp_key", b"temp_value".to_vec(), Duration::from_secs(0)).unwrap();
    assert!(cache.get(&reg, "temp_key").is_none());
    assert!(cache.expire(&reg, "temp_key").is_none());
    assert!(cache.get(&reg, "missing").is_none());
    assert_eq!(cache.sweep_expired(&mut reg), vec!["temp_key".to_string()]);
    assert!(cache.get(&reg, "check_key").is_some());
    assert_eq!(cache.len(&reg), 1);
    cache.set(&mut reg, "minute", vec![1], Duration::from_millis(60_000)).unwrap();
    let left = cache.expire(&reg, "minute").unwrap();
    assert!(left <= Duration::from_secs(60) && left > Duration::from_secs(50));
}

#[test]
fn test_memory_usage_estimate() {
    let (mut reg, cache) = started(false);
    assert_eq!(cache.memory_usage(&reg, 0), 0);
    cache.set_at(&mut reg, "a", vec![1; 100], 10, 0);
    cache.set_at(&mut reg, "b", vec![], 10, 0);
    let entry = 2 * std::mem::size_of::<String>()
        + std::mem::size_of::<Vec<u8>>()
        + std::mem::size_of::<u128>();
    let lock = 2 * std::mem::size_of::<String>()
        + std::mem::size_of::<std::sync::Arc<std::sync::Mutex<()>>>();
    assert_eq!(cache.memory_usage(&reg, 3), 2 * entry + 3 * lock);
}

fn expected_file_name(key: &str, n: usize) -> String {
    let digest = Sha256::digest(key.as_bytes());
    let prefix: String = digest[..n.min(32)]
        .iter()
        .map(|b| format!("{:02x}", b).chars().next().unwrap())
        .collect();
    format!("cache_{}.bin", prefix)
}

#[test]
fn test_file_name_hash_prefix_length() {
    let mut reg = Registry::new();
    let cache = Cache::new(&mut reg, config(true, 4)).unwrap();
    for key in ["key1", "key2", "user-ip-7", ""] {
        let name = cache.file_name(key);
        assert_eq!(name, expected_file_name(key, 4));
        let prefix = name.strip_prefix("cache_").unwrap().strip_suffix(".bin").unwrap();
        assert_eq!(prefix.len(), 4);
    }
}

#[test]
fn test_file_name_prefix_capped_at_digest() {
    let mut reg = Registry::new();
    let long = Cache::new(&mut reg, config(true, 100)).unwrap();
    assert_eq!(long.file_name("key1").len(), 10 + 32);
    assert_eq!(long.file_name("key1"), expected_file_name("key1", 32));
    Cache::drop(&mut reg);
    reg.cleanup_tick();
    let none = Cache::new(&mut reg, config(true, 0)).unwrap();
    assert_eq!(none.file_name("key1"), "cache_.bin");
}

#[test]
fn test_file_names_spread_keys() {
    let mut reg = Registry::new();
    let cache = Cache::new(&mut reg, config(true, 1)).unwrap();
    let mut names: Vec<String> = (0..100).map(|i| cache.file_name(&format!("key{}", i))).collect();
    names.sort();
    names.dedup();
    assert!(names.len() > 1);
}

fn write_bytes(action: FileAction) -> Vec<u8> {
    match action {
        FileAction::Write(b) => b,
        other => panic!("expected a write, got {:?}", other),
    }
}

#[test]
fn test_persist_plan_matches_map_file_format() {
    let (mut reg, cache) = started(true);
    cache.set_at(&mut reg, "persist2", vec![42], 10_000, 7);
    let bytes = write_bytes(cache.persist_plan(&reg, "persist2", None).unwrap());
    let mut map: HashMap<String, (Vec<u8>, u128)> = HashMap::new();
    map.insert("persist2".to_string(), (vec![42], 10_007));
    let expected = bincode::serde::encode_to_vec(&map, bincode_config()).unwrap();
    assert_eq!(bytes, expected);
}

#[test]
fn test_written_file_within_size_bound() {
    let (mut reg, cache) = started(true);
    cache.set_at(&mut reg, "key-é", vec![7; 300], u128::MAX - 1, 0);
    cache.set_at(&mut reg, "b", vec![], 5, 0);
    let file = write_bytes(cache.persist_plan(&reg, "key-é", None).unwrap());
    let file = write_bytes(cache.persist_plan(&reg, "b", Some(&file)).unwrap());
    let bound = 9 + ("key-é".len() + 300 + 35) + ("b".len() + 0 + 35);
    assert!(file.len() <= bound);
    let mut fresh = Registry::new();
    cache.load_file(&mut fresh, &file).unwrap();
    assert_eq!(cache.len(&fresh), 2);
    assert_eq!(cache.expire_at(&fresh, "key-é", 0), Some(u128::MAX - 1));
}

#[test]
fn test_persist_then_load_reads_back() {
    let (mut reg, cache) = started(true);
    cache.set_at(&mut reg, "key1", b"data".to_vec(), 200_000, 1_000);
    let bytes = write_bytes(cache.persist_plan(&reg, "key1", None).unwrap());
    Cache::drop(&mut reg);
    reg.cleanup_tick();
    let cache2 = Cache::new(&mut reg, config(true, 2)).unwrap();
    assert_eq!(cache2.get_at(&reg, "key1", 1_000), None);
    cache2.load_file(&mut reg, &bytes).unwrap();
    assert_eq!(cache2.get_at(&reg, "key1", 1_000), Some(b"data".to_vec()));
    assert_eq!(cache2.expire_at(&reg, "key1", 1_000), Some(200_000));
}

#[test]
fn test_persist_keeps_other_keys_of_file() {
    let (mut reg, cache) = started(true);
    cache.set_at(&mut reg, "a", vec![1], 100, 0);
    let file = write_bytes(cache.persist_plan(&reg, "a", None).unwrap());
    cache.set_at(&mut reg, "b", vec![2], 100, 0);
    let file = write_bytes(cache.persist_plan(&reg, "b", Some(&file)).unwrap());
    let mut fresh = Registry::new();
    cache.load_file(&mut fresh, &file).unwrap();
    assert_eq!(cache.len(&fresh), 2);
    assert_eq!(cache.get_at(&fresh, "a", 0), Some(vec![1]));
    assert_eq!(cache.get_at(&fresh, "b", 0), Some(vec![2]));
    // Removing one key rewrites the file without it.
    cache.remove(&mut reg, "a");
    let file = write_bytes(cache.persist_plan(&reg, "a", Some(&file)).unwrap());
    let mut fresh = Registry::new();
    cache.load_file(&mut fresh, &file).unwrap();
    assert_eq!(cache.len(&fresh), 1);
    assert_eq!(cache.get_at(&fresh, "a", 0), None);
    assert_eq!(cache.get_at(&fresh, "b", 0), Some(vec![2]));
    // Removing the last key removes the file.
    cache.remove(&mut reg, "b");
    assert_eq!(cache.persist_plan(&reg, "b", Some(&file)), Ok(FileAction::Delete));
    // No file and nothing to keep: nothing to do.
    assert_eq!(cache.persist_plan(&reg, "b", None), Ok(FileAction::Keep));
}

#[test]
fn test_persist_plan_refuses_bad_file() {
    let (mut reg, cache) = started(true);
    cache.set_at(&mut reg, "a", vec![1], 100, 0);
    let garbage = [0xffu8, 0xff, 0xff];
    assert_eq!(cache.persist_plan(&reg, "a", Some(&garbage)), Err(CacheError::Decode));
    assert_eq!(CacheError::Decode.message().is_empty(), false);
}

#[test]
fn test_load_file_refuses_bad_bytes() {
    let (mut reg, cache) = started(true);
    cache.set_at(&mut reg, "x", vec![5], 100, 0);
    assert_eq!(cache.load_file(&mut reg, &[0xff]), Err(CacheError::Decode));
    assert_eq!(cache.len(&reg), 1);
    assert_eq!(cache.get_at(&reg, "x", 0), Some(vec![5]));
}

#[test]
fn test_oversized_length_is_refused_not_allocated() {
    let (mut reg, cache) = started(true);
    let mut bytes = vec![0x01u8, 0xFD];
    bytes.extend_from_slice(&[0xFF; 8]);
    assert_eq!(cache.load_file(&mut reg, &bytes), Err(CacheError::Decode));
    assert_eq!(cache.persist_plan(&reg, "a", Some(&bytes)), Err(CacheError::Decode));
    assert_eq!(cache.len(&reg), 0);
}

#[test]
fn test_load_file_last_pair_wins_and_merges() {
    let (mut reg, cache) = started(true);
    cache.set_at(&mut reg, "kept", vec![7], 100, 0);
    cache.set_at(&mut reg, "dup", vec![0], 100, 0);
    let pairs: Vec<(String, (Vec<u8>, u128))> = vec![
        ("dup".to_string(), (vec![1], 500)),
        ("new".to_string(), (vec![2], 600)),
        ("dup".to_string(), (vec![3], 700)),
    ];
    let bytes = bincode::serde::encode_to_vec(&pairs, bincode_config()).unwrap();
    cache.load_file(&mut reg, &bytes).unwrap();
    assert_eq!(cache.len(&reg), 3);
    assert_eq!(cache.get_at(&reg, "dup", 0), Some(vec![3]));
    assert_eq!(cache.expire_at(&reg, "dup", 0), Some(700));
    assert_eq!(cache.get_at(&reg, "new", 0), Some(vec![2]));
    assert_eq!(cache.get_at(&reg, "kept", 0), Some(vec![7]));
}

#[test]
fn test_persist_plan_rewrites_duplicates_once() {
    let (mut reg, cache) = started(true);
    cache.set_at(&mut reg, "z", vec![9], 100, 0);
    let pairs: Vec<(String, (Vec<u8>, u128))> = vec![
        ("dup".to_string(), (vec![1], 500)),
        ("dup".to_string(), (vec![3], 700)),
    ];
    let bytes = bincode::serde::encode_to_vec(&pairs, bincode_config()).unwrap();
    let out = write_bytes(cache.persist_plan(&reg, "z", Some(&bytes)).unwrap());
    let (decoded, _): (HashMap<String, (Vec<u8>, u128)>, usize) =
        bincode::serde::decode_from_slice(&out, bincode_config()).unwrap();
    assert_eq!(decoded.len(), 2);
    assert_eq!(decoded["dup"], (vec![3], 700));
    assert_eq!(decoded["z"], (vec![9], 100));
    let (as_list, _): (Vec<(String, (Vec<u8>, u128))>, usize) =
        bincode::serde::decode_from_slice(&out, bincode_config()).unwrap();
    assert_eq!(as_list.len(), 2);
}

#[test]
fn test_load_file_from_map_encoding() {
    let (mut reg, cache) = started(true);
    let mut map: HashMap<String, (Vec<u8>, u128)> = HashMap::new();
    for i in 0..10u128 {
        map.insert(format!("thread0_key{}", i), (vec![i as u8], 10_000));
    }
    let bytes = bincode::serde::encode_to_vec(&map, bincode_config()).unwrap();
    cache.load_file(&mut reg, &bytes).unwrap();
    assert_eq!(cache.len(&reg), 10);
    for i in 0..10u128 {
        assert_eq!(cache.get_at(&reg, &format!("thread0_key{}", i), 0), Some(vec![i as u8]));
    }
}
