use crate::clock::{
    duration_as_millis, duration_from_secs, duration_millis, duration_of_ms, duration_of_secs,
    is_duration_millis, now, MAX_DURATION_MILLIS,
};
use crate::naming::{cache_file_name, file_name_for_key};
use crate::table::{Entries, EntryTable};
use std::sync::{Arc, Mutex};
use std::time::Duration;
use vstd::prelude::*;

verus! {

#[verifier::external_type_specification]
#[verifier::external_body]
#[verifier::reject_recursive_types(T)]
pub struct ExMutex<T: ?Sized>(Mutex<T>);

/// The bytes one entry takes in the table by the estimate: the key's `String`, the stored
/// bytes' `Vec`, the `u128` expiry time, and one more `String` for the map's overhead.
pub open spec fn entry_footprint() -> nat {
    vstd::layout::size_of::<String>() + vstd::layout::size_of::<Vec<u8>>()
        + vstd::layout::size_of::<u128>() + vstd::layout::size_of::<String>()
}

/// The bytes one file lock takes by the estimate: the path's `String`, the shared
/// `Arc<Mutex<()>>` lock, and one more `String` for the map's overhead.
pub open spec fn lock_footprint() -> nat {
    vstd::layout::size_of::<String>() + vstd::layout::size_of::<Arc<Mutex<()>>>()
        + vstd::layout::size_of::<String>()
}

/// How a cache is set up.
pub struct CacheConfig {
    /// Whether each entry is also kept in a file.
    pub persistent: bool,
    /// How many bytes of a key's SHA-256 digest name the key's file.
    pub hash_prefix_length: usize,
    /// The directory of the cache files.
    pub dir_path: String,
    /// How long the background cleanup waits between rounds.
    pub cleanup_interval: Duration,
}

impl Clone for CacheConfig {
    fn clone(&self) -> (r: Self)
        ensures
            r == *self,
    {
        CacheConfig {
            persistent: self.persistent,
            hash_prefix_length: self.hash_prefix_length,
            dir_path: self.dir_path.clone(),
            cleanup_interval: self.cleanup_interval,
        }
    }
}

impl Default for CacheConfig {
    /// Persistent, two digest bytes per file name, files under `cache_data`,
    /// cleanup every ten seconds.
    fn default() -> (r: Self)
        ensures
            r.persistent,
            r.hash_prefix_length == 2,
            r.dir_path@ == "cache_data"@,
            r.cleanup_interval == duration_of_secs(10),
    {
        CacheConfig {
            persistent: true,
            hash_prefix_length: 2,
            dir_path: String::from_str("cache_data"),
            cleanup_interval: duration_from_secs(10),
        }
    }
}

/// Why a cache operation failed.
#[derive(Debug, PartialEq, Eq)]
pub enum CacheError {
    /// A cache was started and has not been dropped.
    AlreadyRunning,
    /// No cache has been started.
    NotRunning,
    /// The system clock reads a time before the Unix epoch.
    ClockBeforeEpoch,
    /// A cache file's bytes could not be read as a list of entries.
    Decode,
    /// A cache file's entries would take more bytes to read back than can be allocated.
    TooLarge,
}

impl CacheError {
    /// The text of the error.
    pub fn message(&self) -> (r: &'static str)
        ensures
            *self == CacheError::AlreadyRunning ==> r@ == "Cache is running"@,
            *self == CacheError::NotRunning ==> r@ == "Cache::new not running"@,
            *self == CacheError::ClockBeforeEpoch ==> r@ == "Time went backwards"@,
            *self == CacheError::Decode ==> r@ == "cache file could not be decoded"@,
            *self == CacheError::TooLarge ==> r@ == "cache file would be too large to read back"@,
    {
        match self {
            CacheError::AlreadyRunning => "Cache is running",
            CacheError::NotRunning => "Cache::new not running",
            CacheError::ClockBeforeEpoch => "Time went backwards",
            CacheError::Decode => "cache file could not be decoded",
            CacheError::TooLarge => "cache file would be too large to read back",
        }
    }
}

/// Whether a cache runs: never started or fully stopped, running, or asked to stop.
#[derive(Debug, PartialEq, Eq)]
pub enum RunState {
    Stopped,
    Running,
    Closing,
}

/// A handle on the cache: its configuration.
pub struct Cache {
    config: CacheConfig,
}

impl Clone for Cache {
    fn clone(&self) -> (r: Self)
        ensures
            r == *self,
    {
        Cache { config: self.config.clone() }
    }
}

/// Whether the cache runs, the handle that `Cache::instance` gives out, and whether a
/// background cleanup runs.
struct RunControl {
    state: RunState,
    current: Option<Cache>,
    cleanup_running: bool,
}

/// Everything a running cache shares: its run control and the table of entries.
pub struct Registry {
    control: RunControl,
    entries: EntryTable,
}

/// The bytes stored under `key` if its entry has not expired at `now`.
pub open spec fn live_bytes(e: Entries, key: Seq<char>, now: u128) -> Option<Seq<u8>> {
    if e.contains_key(key) && e[key].1 > now {
        Some(e[key].0)
    } else {
        None
    }
}

/// The milliseconds left to the entry of `key` at `now`, if it has not expired.
pub open spec fn remaining_millis(e: Entries, key: Seq<char>, now: u128) -> Option<u128> {
    if e.contains_key(key) && e[key].1 > now {
        Some((e[key].1 - now) as u128)
    } else {
        None
    }
}

/// The expiry time of an entry stored for `ttl` at clock reading `now`: `now` plus the
/// whole milliseconds of `ttl`.
pub open spec fn expiry_of(ttl: Duration, now: u128) -> u128 {
    (now + duration_millis(ttl)) as u128
}

/// `ms`, or the whole milliseconds of the longest `Duration` where `ms` is more.
pub open spec fn capped_millis(ms: u128) -> u128 {
    if ms <= MAX_DURATION_MILLIS {
        ms
    } else {
        MAX_DURATION_MILLIS
    }
}

/// The entries that have not expired at `now`.
pub open spec fn unexpired(e: Entries, now: u128) -> Entries {
    Map::new(|k: Seq<char>| e.contains_key(k) && e[k].1 > now, |k: Seq<char>| e[k])
}

/// The plain view of a returned value.
pub open spec fn bytes_view(r: Option<Vec<u8>>) -> Option<Seq<u8>> {
    match r {
        Some(v) => Some(v@),
        None => None,
    }
}

/// `r` answers the time left `rem`: a duration of those milliseconds (capped at the
/// longest `Duration`) when time is left, nothing otherwise.
pub open spec fn answers_remaining(r: Option<Duration>, rem: Option<u128>) -> bool {
    match rem {
        Some(ms) => r matches Some(d) && duration_millis(d) == capped_millis(ms),
        None => r is None,
    }
}

/// Every key whose entry has expired at `t` is among `keys`.
pub open spec fn lists_all_expired(e: Entries, keys: Seq<String>, t: u128) -> bool {
    forall|k: Seq<char>| #[trigger] e.contains_key(k) && e[k].1 <= t ==> exists|i: int| 0 <= i < keys.len()
        && #[trigger] keys[i]@ == k
}

/// Each of `keys` has an entry that has expired at `t`.
pub open spec fn keys_expired(e: Entries, keys: Seq<String>, t: u128) -> bool {
    forall|i: int| #![trigger keys[i]] 0 <= i < keys.len() ==> e.contains_key(keys[i]@) && e[keys[i]@].1 <= t
}

impl RunControl {
    /// A cache that does not run hands out no instance, and a background cleanup runs
    /// only for an installed cache or for one that is closing.
    #[verifier::type_invariant]
    spec fn well_formed(self) -> bool {
        &&& self.state != RunState::Running ==> self.current is None
        &&& self.cleanup_running ==> (self.current is Some || self.state == RunState::Closing)
    }

    fn new() -> (r: Self)
        ensures
            r.state == RunState::Stopped,
            r.current is None,
            !r.cleanup_running,
    {
        RunControl { state: RunState::Stopped, current: None, cleanup_running: false }
    }

    fn state_now(&self) -> (r: RunState)
        ensures
            r == self.state,
            r != RunState::Running ==> self.current is None,
            self.cleanup_running ==> (self.current is Some || self.state == RunState::Closing),
    {
        proof {
            use_type_invariant(self);
        }
        match self.state {
            RunState::Stopped => RunState::Stopped,
            RunState::Running => RunState::Running,
            RunState::Closing => RunState::Closing,
        }
    }

    fn begin(&mut self) -> (ok: bool)
        ensures
            ok == (old(self).state == RunState::Stopped),
            ok ==> final(self).state == RunState::Running && final(self).current is None
                && !final(self).cleanup_running,
            !ok ==> final(self).state == old(self).state && final(self).current == old(self).current
                && final(self).cleanup_running == old(self).cleanup_running,
    {
        proof {
            use_type_invariant(&*self);
        }
        match self.state {
            RunState::Stopped => {
                *self = RunControl { state: RunState::Running, current: None, cleanup_running: false };
                true
            },
            _ => false,
        }
    }

    fn install(&mut self, c: Cache)
        ensures
            old(self).state == RunState::Running ==> final(self).current == Some(c)
                && final(self).cleanup_running,
            old(self).state != RunState::Running ==> final(self).current == old(self).current
                && final(self).cleanup_running == old(self).cleanup_running,
            final(self).state == old(self).state,
    {
        match self.state {
            RunState::Running => {
                *self = RunControl { state: RunState::Running, current: Some(c), cleanup_running: true };
            },
            _ => {},
        }
    }

    fn abandon(&mut self)
        ensures
            old(self).state == RunState::Running && old(self).current is None ==> final(self).state
                == RunState::Stopped,
            !(old(self).state == RunState::Running && old(self).current is None) ==> final(self).state
                == old(self).state,
            final(self).current == old(self).current,
            final(self).cleanup_running == old(self).cleanup_running,
    {
        proof {
            use_type_invariant(&*self);
        }
        let running = match self.state {
            RunState::Running => true,
            _ => false,
        };
        if running && self.current.is_none() {
            *self = RunControl { state: RunState::Stopped, current: None, cleanup_running: false };
        }
    }

    fn stop(&mut self)
        ensures
            final(self).state == (if old(self).cleanup_running {
                RunState::Closing
            } else {
                RunState::Stopped
            }),
            final(self).current is None,
            final(self).cleanup_running == old(self).cleanup_running,
    {
        let cleanup = self.cleanup_running;
        let state = if cleanup {
            RunState::Closing
        } else {
            RunState::Stopped
        };
        *self = RunControl { state, current: None, cleanup_running: cleanup };
    }

    fn tick(&mut self) -> (go_on: bool)
        ensures
            go_on == (old(self).state == RunState::Running),
            final(self).state == (if go_on { RunState::Running } else { RunState::Stopped }),
            final(self).cleanup_running == (go_on && old(self).cleanup_running),
            final(self).current == old(self).current,
    {
        proof {
            use_type_invariant(&*self);
        }
        match self.state {
            RunState::Running => true,
            _ => {
                *self = RunControl { state: RunState::Stopped, current: None, cleanup_running: false };
                false
            },
        }
    }

    fn current_clone(&self) -> (r: Option<Cache>)
        ensures
            r == self.current,
    {
        match &self.current {
            Some(c) => Some(c.clone()),
            None => None,
        }
    }
}

impl Registry {
    pub closed spec fn run_state(&self) -> RunState {
        self.control.state
    }

    pub closed spec fn current(&self) -> Option<Cache> {
        self.control.current
    }

    pub closed spec fn entries(&self) -> Entries {
        self.entries.contents()
    }

    pub closed spec fn cleanup_active(&self) -> bool {
        self.control.cleanup_running
    }

    /// Nothing started, no entry, no background cleanup.
    pub fn new() -> (r: Self)
        ensures
            r.run_state() == RunState::Stopped,
            r.current() is None,
            r.entries() == Entries::empty(),
            !r.cleanup_active(),
    {
        Registry { control: RunControl::new(), entries: EntryTable::new() }
    }

    /// Whether the cache runs. A cache that does not run hands out no instance, and a
    /// background cleanup runs only for an installed cache or for one that is closing.
    pub fn state(&self) -> (r: RunState)
        ensures
            r == self.run_state(),
            r != RunState::Running ==> self.current() is None,
            self.cleanup_active() ==> (self.current() is Some || r == RunState::Closing),
    {
        self.control.state_now()
    }

    /// The bytes and expiry time stored under `key`, if any.
    pub(crate) fn entries_get(&self, key: &str) -> (r: Option<(Vec<u8>, u128)>)
        ensures
            match r {
                Some(v) => self.entries().contains_key(key@) && self.entries()[key@] == (v.0@, v.1),
                None => !self.entries().contains_key(key@),
            },
    {
        self.entries.get(key)
    }

    /// Stores `value` with expiry time `expires_at` under `key`.
    pub(crate) fn put_entry(&mut self, key: String, value: Vec<u8>, expires_at: u128)
        ensures
            final(self).entries() == old(self).entries().insert(key@, (value@, expires_at)),
            final(self).run_state() == old(self).run_state(),
            final(self).current() == old(self).current(),
            final(self).cleanup_active() == old(self).cleanup_active(),
    {
        self.entries.insert(key, value, expires_at);
    }

    /// The background cleanup's check before each round: it goes on while the cache runs;
    /// otherwise it marks the cache stopped and itself ended.
    pub fn cleanup_tick(&mut self) -> (go_on: bool)
        ensures
            go_on == (old(self).run_state() == RunState::Running),
            final(self).run_state() == (if go_on { RunState::Running } else { RunState::Stopped }),
            final(self).cleanup_active() == (go_on && old(self).cleanup_active()),
            final(self).current() == old(self).current(),
            final(self).entries() == old(self).entries(),
    {
        self.control.tick()
    }
}

impl Cache {
    pub closed spec fn settings(&self) -> CacheConfig {
        self.config
    }

    /// The configuration.
    pub fn config(&self) -> (r: &CacheConfig)
        ensures
            *r == self.settings(),
    {
        &self.config
    }

    /// Starts a cache with `config`: refused while another runs or is being stopped.
    /// Loading the files and the background cleanup follow outside.
    pub fn new(reg: &mut Registry, config: CacheConfig) -> (r: Result<Cache, CacheError>)
        ensures
            old(reg).run_state() == RunState::Stopped ==> {
                &&& r matches Ok(c) && c.settings() == config
                &&& final(reg).run_state() == RunState::Running
                &&& final(reg).current() is None
                &&& !final(reg).cleanup_active()
                &&& final(reg).entries() == old(reg).entries()
            },
            old(reg).run_state() != RunState::Stopped ==> {
                &&& r == Err::<Cache, CacheError>(CacheError::AlreadyRunning)
                &&& final(reg).run_state() == old(reg).run_state()
                &&& final(reg).current() == old(reg).current()
                &&& final(reg).entries() == old(reg).entries()
                &&& final(reg).cleanup_active() == old(reg).cleanup_active()
            },
    {
        if reg.control.begin() {
            Ok(Cache { config })
        } else {
            Err(CacheError::AlreadyRunning)
        }
    }

    /// Makes this cache the one that `Cache::instance` hands out, while the cache runs; its
    /// background cleanup starts with it. A cache that does not run is left as it is.
    pub fn install(&self, reg: &mut Registry)
        ensures
            old(reg).run_state() == RunState::Running ==> final(reg).current() == Some(*self)
                && final(reg).cleanup_active(),
            old(reg).run_state() != RunState::Running ==> final(reg).current() == old(reg).current()
                && final(reg).cleanup_active() == old(reg).cleanup_active(),
            final(reg).run_state() == old(reg).run_state(),
            final(reg).entries() == old(reg).entries(),
    {
        reg.control.install(self.clone());
    }

    /// Gives up a start that failed before the cache was installed (its directory could not
    /// be made or a file could not be read): the cache counts as stopped again, so a later
    /// `Cache::new` is accepted. Entries loaded so far stay. Once a cache is installed,
    /// nothing changes.
    pub fn abandon_start(&self, reg: &mut Registry)
        ensures
            old(reg).run_state() == RunState::Running && old(reg).current() is None
                ==> final(reg).run_state() == RunState::Stopped,
            !(old(reg).run_state() == RunState::Running && old(reg).current() is None)
                ==> final(reg).run_state() == old(reg).run_state(),
            final(reg).current() == old(reg).current(),
            final(reg).cleanup_active() == old(reg).cleanup_active(),
            final(reg).entries() == old(reg).entries(),
    {
        reg.control.abandon();
    }

    /// The cache that was started, if one runs.
    pub fn instance(reg: &Registry) -> (r: Result<Cache, CacheError>)
        ensures
            match reg.current() {
                Some(c) => r == Ok::<Cache, CacheError>(c),
                None => r == Err::<Cache, CacheError>(CacheError::NotRunning),
            },
    {
        match reg.control.current_clone() {
            Some(c) => Ok(c),
            None => Err(CacheError::NotRunning),
        }
    }

    /// Stops the cache: drops every entry and the handle that `Cache::instance` gave out.
    /// Where a background cleanup runs, the cache is closing until the cleanup has seen
    /// it and ended; otherwise it is stopped at once, so `Cache::new` may be called again.
    pub fn drop(reg: &mut Registry)
        ensures
            final(reg).run_state() == (if old(reg).cleanup_active() {
                RunState::Closing
            } else {
                RunState::Stopped
            }),
            final(reg).cleanup_active() == old(reg).cleanup_active(),
            final(reg).current() is None,
            final(reg).entries() == Entries::empty(),
    {
        reg.control.stop();
        reg.entries.clear();
    }

    /// Stores `value` under `key`, to expire `ttl_ms` milliseconds after `now`.
    pub fn set_at(&self, reg: &mut Registry, key: &str, value: Vec<u8>, ttl_ms: u128, now: u128)
        requires
            now + ttl_ms <= u128::MAX,
        ensures
            final(reg).entries() == old(reg).entries().insert(key@, (value@, (now + ttl_ms) as u128)),
            final(reg).run_state() == old(reg).run_state(),
            final(reg).current() == old(reg).current(),
            final(reg).cleanup_active() == old(reg).cleanup_active(),
    {
        reg.entries.insert(key.to_owned(), value, now + ttl_ms);
    }

    /// Stores `value` under `key`, to expire `ttl` after the clock's current reading, in
    /// milliseconds since the epoch (a clock before the epoch reads as the epoch).
    pub fn set(&self, reg: &mut Registry, key: &str, value: Vec<u8>, ttl: Duration) -> (r: Result<(), CacheError>)
        ensures
            r is Ok,
            exists|t: u128| #[trigger] is_duration_millis(t) && t <= MAX_DURATION_MILLIS
                && final(reg).entries() == old(reg).entries().insert(key@, (value@, expiry_of(ttl, t))),
            r is Err ==> r == Err::<(), CacheError>(CacheError::ClockBeforeEpoch)
                && final(reg).entries() == old(reg).entries(),
            final(reg).run_state() == old(reg).run_state(),
            final(reg).current() == old(reg).current(),
            final(reg).cleanup_active() == old(reg).cleanup_active(),
    {
        match now() {
            Some(t) => {
                let ms = duration_as_millis(ttl);
                self.set_at(reg, key, value, ms, t);
                assert(expiry_of(ttl, t) == t + ms);
                Ok(())
            },
            None => Err(CacheError::ClockBeforeEpoch),
        }
    }

    /// The bytes stored under `key` if its entry has not expired at `now`.
    pub fn get_at(&self, reg: &Registry, key: &str, now: u128) -> (r: Option<Vec<u8>>)
        ensures
            match live_bytes(reg.entries(), key@, now) {
                Some(b) => r matches Some(v) && v@ == b,
                None => r is None,
            },
    {
        match reg.entries.get(key) {
            Some((bytes, expires_at)) => {
                if expires_at > now {
                    Some(bytes)
                } else {
                    None
                }
            },
            None => None,
        }
    }

    /// The bytes stored under `key` if its entry has not expired at the clock's current
    /// reading, in milliseconds since the epoch.
    pub fn get(&self, reg: &Registry, key: &str) -> (r: Option<Vec<u8>>)
        ensures
            exists|t: u128| #[trigger] is_duration_millis(t) && t <= MAX_DURATION_MILLIS
                && bytes_view(r) == live_bytes(reg.entries(), key@, t),
            r is None || exists|t: u128| live_bytes(reg.entries(), key@, t) == Some(r->Some_0@),
            !reg.entries().contains_key(key@) ==> r is None,
    {
        match now() {
            Some(t) => {
                let r = self.get_at(reg, key, t);
                assert(bytes_view(r) == live_bytes(reg.entries(), key@, t));
                r
            },
            None => None,
        }
    }

    /// The milliseconds left to the entry of `key` at `now`, if it has not expired.
    pub fn expire_at(&self, reg: &Registry, key: &str, now: u128) -> (r: Option<u128>)
        ensures
            r == remaining_millis(reg.entries(), key@, now),
    {
        match reg.entries.get(key) {
            Some((_, expires_at)) => {
                if expires_at > now {
                    Some(expires_at - now)
                } else {
                    None
                }
            },
            None => None,
        }
    }

    /// The time left to the entry of `key` by the clock, if it has not expired, to the
    /// millisecond (the longest `Duration` where more is left than a `Duration` can hold);
    /// the reading is the clock's current one, in milliseconds since the epoch.
    pub fn expire(&self, reg: &Registry, key: &str) -> (r: Option<Duration>)
        ensures
            exists|t: u128| #[trigger] is_duration_millis(t) && t <= MAX_DURATION_MILLIS
                && answers_remaining(r, remaining_millis(reg.entries(), key@, t)),
            r matches Some(d) ==> exists|t: u128| t <= MAX_DURATION_MILLIS
                && #[trigger] remaining_millis(reg.entries(), key@, t) is Some
                && duration_millis(d) == capped_millis(remaining_millis(reg.entries(), key@, t)->Some_0),
            !reg.entries().contains_key(key@) ==> r is None,
    {
        match now() {
            Some(t) => {
                let r = match self.expire_at(reg, key, t) {
                    Some(ms) => Some(duration_of_ms(ms)),
                    None => None,
                };
                assert(answers_remaining(r, remaining_millis(reg.entries(), key@, t)));
                r
            },
            None => None,
        }
    }

    /// Drops the entry of `key`, if any.
    pub fn remove(&self, reg: &mut Registry, key: &str)
        ensures
            final(reg).entries() == old(reg).entries().remove(key@),
            final(reg).run_state() == old(reg).run_state(),
            final(reg).current() == old(reg).current(),
            final(reg).cleanup_active() == old(reg).cleanup_active(),
    {
        reg.entries.remove(key);
    }

    /// Drops every entry.
    pub fn clear(&self, reg: &mut Registry)
        ensures
            final(reg).entries() == Entries::empty(),
            final(reg).run_state() == old(reg).run_state(),
            final(reg).current() == old(reg).current(),
            final(reg).cleanup_active() == old(reg).cleanup_active(),
    {
        reg.entries.clear();
    }

    /// The number of entries held, expired or not.
    pub fn len(&self, reg: &Registry) -> (r: usize)
        ensures
            r == reg.entries().len(),
    {
        reg.entries.len()
    }

    /// Whether no entry is held.
    pub fn is_empty(&self, reg: &Registry) -> (r: bool)
        ensures
            r == (reg.entries().len() == 0),
    {
        reg.entries.is_empty()
    }

    /// An estimate of the memory the table and `file_locks` file locks take.
    pub fn memory_usage(&self, reg: &Registry, file_locks: usize) -> (r: usize)
        requires
            reg.entries().len() * entry_footprint() + file_locks * lock_footprint() <= usize::MAX,
        ensures
            r == reg.entries().len() * entry_footprint() + file_locks * lock_footprint(),
    {
        let n = reg.entries.len();
        let entries_size: usize = if n == 0 {
            0
        } else {
            let s = core::mem::size_of::<String>();
            let v = core::mem::size_of::<Vec<u8>>();
            let t = core::mem::size_of::<u128>();
            proof {
                let total = n * entry_footprint();
                assert(entry_footprint() <= total) by (nonlinear_arith)
                    requires
                        n >= 1,
                        total == n * entry_footprint(),
                ;
            }
            n * (s + v + t + s)
        };
        let ghost entries_part: nat = reg.entries().len() * entry_footprint();
        let locks_size: usize = if file_locks == 0 {
            0
        } else {
            let s = core::mem::size_of::<String>();
            let a = core::mem::size_of::<Arc<Mutex<()>>>();
            proof {
                let total = file_locks * lock_footprint();
                assert(total <= usize::MAX) by (nonlinear_arith)
                    requires
                        entries_part >= 0,
                        entries_part + total <= usize::MAX,
                ;
                assert(lock_footprint() <= total) by (nonlinear_arith)
                    requires
                        file_locks >= 1,
                        total == file_locks * lock_footprint(),
                ;
            }
            file_locks * (s + a + s)
        };
        proof {
            assert(entries_size == entries_part) by (nonlinear_arith)
                requires
                    n == 0 ==> entries_size == 0,
                    n > 0 ==> entries_size == n * entry_footprint(),
                    entries_part == n * entry_footprint(),
            ;
            assert(locks_size == file_locks * lock_footprint()) by (nonlinear_arith)
                requires
                    file_locks == 0 ==> locks_size == 0,
                    file_locks > 0 ==> locks_size == file_locks * lock_footprint(),
            ;
        }
        entries_size + locks_size
    }

    /// The keys whose entries have expired at `now`, each once.
    pub fn expired_keys_at(&self, reg: &Registry, now: u128) -> (r: Vec<String>)
        ensures
            forall|i: int| #![trigger r@[i]] 0 <= i < r.len() ==> {
                &&& reg.entries().contains_key(r@[i]@)
                &&& reg.entries()[r@[i]@].1 <= now
            },
            forall|i: int, j: int| 0 <= i < j < r.len() ==> r@[i]@ != r@[j]@,
            forall|k: Seq<char>| #[trigger] reg.entries().contains_key(k)
                && reg.entries()[k].1 <= now ==> exists|i: int| 0 <= i < r.len() && #[trigger] r@[i]@ == k,
    {
        reg.entries.expired_keys(now)
    }

    /// One round of the background cleanup at `now`: drops every entry that has expired
    /// at `now` and gives back their keys, each once.
    pub fn sweep_expired_at(&self, reg: &mut Registry, now: u128) -> (r: Vec<String>)
        ensures
            final(reg).entries() == unexpired(old(reg).entries(), now),
            forall|i: int| #![trigger r@[i]] 0 <= i < r.len() ==> {
                &&& old(reg).entries().contains_key(r@[i]@)
                &&& old(reg).entries()[r@[i]@].1 <= now
            },
            forall|i: int, j: int| 0 <= i < j < r.len() ==> r@[i]@ != r@[j]@,
            forall|k: Seq<char>| #[trigger] old(reg).entries().contains_key(k)
                && old(reg).entries()[k].1 <= now ==> exists|i: int| 0 <= i < r.len() && #[trigger] r@[i]@ == k,
            final(reg).run_state() == old(reg).run_state(),
            final(reg).current() == old(reg).current(),
            final(reg).cleanup_active() == old(reg).cleanup_active(),
    {
        let keys = self.expired_keys_at(reg, now);
        let ghost start = reg.entries();
        let mut i: usize = 0;
        while i < keys.len()
            invariant
                i <= keys.len(),
                start == old(reg).entries(),
                forall|j: int| #![trigger keys@[j]] 0 <= j < keys.len() ==> {
                    &&& start.contains_key(keys@[j]@)
                    &&& start[keys@[j]@].1 <= now
                },
                forall|k: Seq<char>| #[trigger] reg.entries().contains_key(k) <==> (start.contains_key(k)
                    && !(exists|j: int| 0 <= j < i && #[trigger] keys@[j]@ == k)),
                forall|k: Seq<char>| #[trigger] reg.entries().contains_key(k) ==> reg.entries()[k] == start[k],
                reg.run_state() == old(reg).run_state(),
                reg.current() == old(reg).current(),
                reg.cleanup_active() == old(reg).cleanup_active(),
            decreases keys.len() - i,
        {
            let ghost before = reg.entries();
            self.remove(reg, keys[i].as_str());
            proof {
                assert forall|k: Seq<char>| #[trigger] reg.entries().contains_key(k) <==> (start.contains_key(k)
                    && !(exists|j: int| 0 <= j < i + 1 && #[trigger] keys@[j]@ == k)) by {
                    if exists|j: int| 0 <= j < i + 1 && #[trigger] keys@[j]@ == k {
                        let j = choose|j: int| 0 <= j < i + 1 && #[trigger] keys@[j]@ == k;
                        if j < i {
                            assert(!before.contains_key(k));
                        }
                    } else {
                        assert(keys@[i as int]@ != k);
                        assert(!(exists|j: int| 0 <= j < i && #[trigger] keys@[j]@ == k));
                    }
                }
            }
            i = i + 1;
        }
        proof {
            let target = unexpired(start, now);
            assert forall|k: Seq<char>| #[trigger] reg.entries().contains_key(k) == target.contains_key(k) by {
                if start.contains_key(k) && start[k].1 <= now {
                    let j = choose|j: int| 0 <= j < keys.len() && #[trigger] keys@[j]@ == k;
                    assert(!reg.entries().contains_key(k));
                }
                if start.contains_key(k) && start[k].1 > now {
                    if exists|j: int| 0 <= j < keys.len() && #[trigger] keys@[j]@ == k {
                        let j = choose|j: int| 0 <= j < keys.len() && #[trigger] keys@[j]@ == k;
                        assert(start[keys@[j]@].1 <= now);
                    }
                }
            }
            assert(reg.entries() =~= target);
        }
        keys
    }

    /// One round of the background cleanup by the clock: drops every entry that has
    /// expired at the clock's current reading, in milliseconds since the epoch, keeps every
    /// other one, and gives back the dropped keys, each once.
    pub fn sweep_expired(&self, reg: &mut Registry) -> (r: Vec<String>)
        ensures
            exists|t: u128| #[trigger] is_duration_millis(t) && t <= MAX_DURATION_MILLIS
                && final(reg).entries() == unexpired(old(reg).entries(), t)
                && keys_expired(old(reg).entries(), r@, t) && lists_all_expired(old(reg).entries(), r@, t),
            (r.len() == 0 && final(reg).entries() == old(reg).entries()) || exists|t: u128|
                #[trigger] unexpired(old(reg).entries(), t) == final(reg).entries() && keys_expired(old(reg).entries(), r@, t),
            forall|i: int, j: int| 0 <= i < j < r.len() ==> r@[i]@ != r@[j]@,
            final(reg).run_state() == old(reg).run_state(),
            final(reg).current() == old(reg).current(),
            final(reg).cleanup_active() == old(reg).cleanup_active(),
    {
        match now() {
            Some(t) => {
                let r = self.sweep_expired_at(reg, t);
                assert(keys_expired(old(reg).entries(), r@, t));
                assert(lists_all_expired(old(reg).entries(), r@, t));
                assert(unexpired(old(reg).entries(), t) == reg.entries());
                r
            },
            None => Vec::new(),
        }
    }

    /// The name of the file that holds `key`.
    pub fn file_name(&self, key: &str) -> (r: String)
        ensures
            r@ == cache_file_name(key@, self.settings().hash_prefix_length),
    {
        file_name_for_key(key, self.config.hash_prefix_length)
    }
}

} // verus!
