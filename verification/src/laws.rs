use crate::cache::{expiry_of, live_bytes, remaining_millis, unexpired};
use crate::clock::{duration_millis, MAX_DURATION_MILLIS};
use std::time::Duration;
use crate::naming::{cache_file_name, hash_prefix, hex_digit, prefix_length, sha256_digest};
use crate::codec::{bincode_encoding, encoded_size_bound, pairs_map, PairsView, DECODE_LIMIT};
use crate::persist::{encodes, updated_meaning};
use crate::table::Entries;
use vstd::prelude::*;

verus! {

/// The table without the entries of `keys`.
pub open spec fn without_keys(e: Entries, keys: Seq<Seq<char>>) -> Entries
    decreases keys.len(),
{
    if keys.len() == 0 {
        e
    } else {
        without_keys(e, keys.drop_last()).remove(keys.last())
    }
}

/// A read gives back the last write of the key until the entry expires, and nothing
/// from then on.
pub proof fn law_read_after_write(e: Entries, key: Seq<char>, value: Seq<u8>, expires_at: u128, t: u128)
    ensures
        live_bytes(e.insert(key, (value, expires_at)), key, t) == (if t < expires_at {
            Some(value)
        } else {
            None
        }),
{
}

/// A write to one key leaves what every other key reads.
pub proof fn law_write_keeps_other_keys(
    e: Entries,
    key: Seq<char>,
    other: Seq<char>,
    value: Seq<u8>,
    expires_at: u128,
    t: u128,
)
    requires
        key != other,
    ensures
        live_bytes(e.insert(key, (value, expires_at)), other, t) == live_bytes(e, other, t),
        remaining_millis(e.insert(key, (value, expires_at)), other, t) == remaining_millis(e, other, t),
{
}

/// After a removal the key reads nothing, and every other key reads as before.
pub proof fn law_read_after_remove(e: Entries, key: Seq<char>, other: Seq<char>, t: u128)
    ensures
        live_bytes(e.remove(key), key, t) is None,
        remaining_millis(e.remove(key), key, t) is None,
        key != other ==> live_bytes(e.remove(key), other, t) == live_bytes(e, other, t),
{
}

/// After clearing, no key reads anything and the table holds no entry.
pub proof fn law_read_after_clear(key: Seq<char>, t: u128)
    ensures
        live_bytes(Entries::empty(), key, t) is None,
        Entries::empty().len() == 0,
{
}

/// A key has time left exactly when it reads a value; right after a write the time left
/// is the whole time to live, and later it is never more.
pub proof fn law_remaining_after_write(e: Entries, key: Seq<char>, value: Seq<u8>, now: u128, ttl: u128, t: u128)
    requires
        now + ttl <= u128::MAX,
        now <= t,
    ensures
        (live_bytes(e, key, t) is Some) == (remaining_millis(e, key, t) is Some),
        ttl > 0 ==> remaining_millis(e.insert(key, (value, (now + ttl) as u128)), key, now) == Some(ttl),
        remaining_millis(e.insert(key, (value, (now + ttl) as u128)), key, t) matches Some(ms) ==> ms <= ttl,
{
}

/// The time left shrinks by exactly the time that passed: an entry with time left at a
/// later reading had time left at every earlier one, that much more; once none is left,
/// none is left later.
pub proof fn law_remaining_shrinks(e: Entries, key: Seq<char>, t1: u128, t2: u128)
    requires
        t1 <= t2,
    ensures
        remaining_millis(e, key, t2) matches Some(ms2) ==> remaining_millis(e, key, t1) matches Some(ms1)
            && ms1 == ms2 + (t2 - t1),
        remaining_millis(e, key, t1) is None ==> remaining_millis(e, key, t2) is None,
{
}

/// Removing keys whose entries have expired at `now` changes what no key reads at `now`
/// or later: the background cleanup cannot be observed through reads.
pub proof fn law_cleanup_unobservable(e: Entries, keys: Seq<Seq<char>>, now: u128, key: Seq<char>, t: u128)
    requires
        forall|i: int| 0 <= i < keys.len() ==> #[trigger] e.contains_key(keys[i]) && e[keys[i]].1 <= now,
        now <= t,
    ensures
        live_bytes(without_keys(e, keys), key, t) == live_bytes(e, key, t),
        remaining_millis(without_keys(e, keys), key, t) == remaining_millis(e, key, t),
    decreases keys.len(),
{
    if keys.len() > 0 {
        let rest = keys.drop_last();
        assert forall|i: int| 0 <= i < rest.len() implies #[trigger] e.contains_key(rest[i]) && e[rest[i]].1 <= now by {
            assert(rest[i] == keys[i]);
        }
        law_cleanup_unobservable(e, rest, now, key, t);
        lemma_without_keys_sub(e, rest);
        assert(e.contains_key(keys[keys.len() - 1]));
    }
}

/// A cleanup round at `now` (dropping every entry expired at `now`, as
/// `Cache::sweep_expired_at` does) changes what no key reads at `now` or later.
pub proof fn law_sweep_unobservable(e: Entries, now: u128, key: Seq<char>, t: u128)
    requires
        now <= t,
    ensures
        live_bytes(unexpired(e, now), key, t) == live_bytes(e, key, t),
        remaining_millis(unexpired(e, now), key, t) == remaining_millis(e, key, t),
{
}

/// A cleanup round at reading `t` keeps exactly the entries whose expiry is after `t`,
/// unchanged, and drops exactly those that expire at or before `t`: an entry with time
/// left at `t` is never dropped.
pub proof fn law_sweep_drops_exactly_expired(e: Entries, t: u128, key: Seq<char>)
    ensures
        unexpired(e, t).contains_key(key) <==> (e.contains_key(key) && e[key].1 > t),
        unexpired(e, t).contains_key(key) ==> unexpired(e, t)[key] == e[key],
        e.contains_key(key) && e[key].1 > t ==> live_bytes(unexpired(e, t), key, t) == Some(e[key].0),
{
}

/// An entry stored at reading `t` for `ttl` lives exactly the milliseconds of `ttl` after
/// `t`: at every later reading before `t` plus those milliseconds it reads back its value
/// with the rest of the time left, and from then on it reads nothing.
pub proof fn law_set_lives_for_ttl(e: Entries, key: Seq<char>, value: Seq<u8>, ttl: Duration, t: u128, later: u128)
    requires
        t <= MAX_DURATION_MILLIS,
        duration_millis(ttl) <= MAX_DURATION_MILLIS,
        t <= later,
    ensures
        later < t + duration_millis(ttl) ==> live_bytes(e.insert(key, (value, expiry_of(ttl, t))), key, later)
            == Some(value),
        later < t + duration_millis(ttl) ==> remaining_millis(e.insert(key, (value, expiry_of(ttl, t))), key, later)
            == Some((t + duration_millis(ttl) - later) as u128),
        later >= t + duration_millis(ttl) ==> live_bytes(e.insert(key, (value, expiry_of(ttl, t))), key, later) is None,
        later >= t + duration_millis(ttl) ==> remaining_millis(e.insert(key, (value, expiry_of(ttl, t))), key, later) is None,
        duration_millis(ttl) > 0 ==> live_bytes(e.insert(key, (value, expiry_of(ttl, t))), key, t) == Some(value),
{
}

/// The time left and the time passed add up to the whole time to live: for an entry
/// stored at reading `t` for `ttl`, at a later reading with time left, that time plus
/// the milliseconds since `t` is the milliseconds of `ttl`.
pub proof fn law_remaining_plus_elapsed(e: Entries, key: Seq<char>, value: Seq<u8>, ttl: Duration, t: u128, later: u128)
    requires
        t <= MAX_DURATION_MILLIS,
        duration_millis(ttl) <= MAX_DURATION_MILLIS,
        t <= later,
    ensures
        remaining_millis(e.insert(key, (value, expiry_of(ttl, t))), key, later) matches Some(ms)
            ==> ms + (later - t) == duration_millis(ttl),
{
}

/// Removing keys keeps every remaining entry as it was.
pub proof fn lemma_without_keys_sub(e: Entries, keys: Seq<Seq<char>>)
    ensures
        forall|k: Seq<char>| #[trigger] without_keys(e, keys).contains_key(k) ==> e.contains_key(k)
            && without_keys(e, keys)[k] == e[k],
    decreases keys.len(),
{
    if keys.len() > 0 {
        let w = without_keys(e, keys.drop_last());
        lemma_without_keys_sub(e, keys.drop_last());
        assert forall|k: Seq<char>| #[trigger] without_keys(e, keys).contains_key(k) implies e.contains_key(k)
            && without_keys(e, keys)[k] == e[k] by {
            assert(w.contains_key(k));
        }
    }
}

/// A key's file, once updated, gives back the key's entry as the table holds it: loading
/// the file into any table makes the key read what it reads in the table the file was
/// written from, at every time, and the file's other keys keep their entries.
pub proof fn law_file_reads_back_entry(file: Entries, table: Entries, key: Seq<char>, loaded_into: Entries, other: Seq<char>, t: u128)
    ensures
        table.contains_key(key) ==> live_bytes(loaded_into.union_prefer_right(updated_meaning(file, table, key)), key, t)
            == live_bytes(table, key, t),
        !table.contains_key(key) ==> !updated_meaning(file, table, key).contains_key(key),
        other != key ==> updated_meaning(file, table, key).contains_key(other) == file.contains_key(other),
        other != key && file.contains_key(other) ==> updated_meaning(file, table, key)[other] == file[other],
{
}

/// A file written by a planned update loads back as what the plan meant: when `bytes`
/// encode the entries `m` (as `Cache::persist_plan` states of a `Write`) and loading
/// `bytes` into `before` gave `after` (as `Cache::load_file` states of such bytes),
/// `after` is `before` with the entries of `m` put over it.
pub proof fn law_written_file_loads_back(bytes: Seq<u8>, m: Entries, before: Entries, after: Entries)
    requires
        encodes(bytes, m),
        forall|s: PairsView| #[trigger] bincode_encoding(s) == bytes && encoded_size_bound(s) <= DECODE_LIMIT
            ==> after == before.union_prefer_right(pairs_map(s)),
    ensures
        after == before.union_prefer_right(m),
{
    let s = choose|s: PairsView| #[trigger] bincode_encoding(s) == bytes && crate::codec::keys_unique(s)
        && pairs_map(s) == m && bytes.len() <= encoded_size_bound(s) && encoded_size_bound(s) <= DECODE_LIMIT;
    assert(bincode_encoding(s) == bytes);
}

/// The file name is `cache_`, one hexadecimal digit for each of the first
/// `min(hash_prefix_length, 32)` digest bytes, and `.bin`.
pub proof fn law_file_name_shape(key: Seq<char>, hash_prefix_length: usize)
    ensures
        cache_file_name(key, hash_prefix_length).len() == 10 + prefix_length(hash_prefix_length),
        cache_file_name(key, hash_prefix_length).subrange(0, 6) == seq!['c', 'a', 'c', 'h', 'e', '_'],
        forall|i: int| 6 <= i < 6 + prefix_length(hash_prefix_length) ==> {
            let c = #[trigger] cache_file_name(key, hash_prefix_length)[i];
            ('0' <= c <= '9') || ('a' <= c <= 'f')
        },
{
    let d = sha256_digest(vstd::utf8::encode_utf8(key));
    let n = prefix_length(hash_prefix_length);
    let name = cache_file_name(key, hash_prefix_length);
    assert(name.subrange(0, 6) =~= seq!['c', 'a', 'c', 'h', 'e', '_']);
    assert forall|i: int| 6 <= i < 6 + n implies {
        let c = #[trigger] name[i];
        ('0' <= c <= '9') || ('a' <= c <= 'f')
    } by {
        assert(name[i] == hash_prefix(d, n)[i - 6]);
        assert(name[i] == hex_digit((d[i - 6] / 16) as int));
    }
}

/// What the cache files hold, by file name.
pub type Files = Map<Seq<char>, Entries>;

/// What the file `name` holds: nothing when there is no such file.
pub open spec fn file_at(files: Files, name: Seq<char>) -> Entries {
    if files.contains_key(name) {
        files[name]
    } else {
        Entries::empty()
    }
}

/// The files mirror the table: each entry of the table is in the file its key names, as
/// the table holds it, and each entry of a file is a table entry whose key names that file.
pub open spec fn mirrors(files: Files, table: Entries, n: usize) -> bool {
    &&& forall|k: Seq<char>| #[trigger] table.contains_key(k) ==> {
        &&& file_at(files, cache_file_name(k, n)).contains_key(k)
        &&& file_at(files, cache_file_name(k, n))[k] == table[k]
    }
    &&& forall|f: Seq<char>, k: Seq<char>| #[trigger] files.contains_key(f) && #[trigger] files[f].contains_key(k) ==> {
        &&& f == cache_file_name(k, n)
        &&& table.contains_key(k)
        &&& files[f][k] == table[k]
    }
}

/// The files after the file of `key` was brought up to date with `table`, as
/// `Cache::persist_plan` plans it: written with its new entries, or removed when none is
/// left.
pub open spec fn after_update(files: Files, table: Entries, key: Seq<char>, n: usize) -> Files {
    let name = cache_file_name(key, n);
    let m = updated_meaning(file_at(files, name), table, key);
    if m == Entries::empty() {
        files.remove(name)
    } else {
        files.insert(name, m)
    }
}

/// Loading the files in `order` into an empty table, each over what came before, as
/// `Cache::load_file` does with each file.
pub open spec fn load_all(files: Files, order: Seq<Seq<char>>) -> Entries
    decreases order.len(),
{
    if order.len() == 0 {
        Entries::empty()
    } else {
        load_all(files, order.drop_last()).union_prefer_right(file_at(files, order.last()))
    }
}

/// The files keep mirroring the table across a change of one key followed by the update
/// of that key's file: a set, a removal, or one key of a cleanup round.
pub proof fn law_update_keeps_mirror(files: Files, table: Entries, changed: Entries, key: Seq<char>, n: usize)
    requires
        mirrors(files, table, n),
        forall|k: Seq<char>| k != key ==> #[trigger] changed.contains_key(k) == table.contains_key(k),
        forall|k: Seq<char>| k != key && #[trigger] changed.contains_key(k) ==> changed[k] == table[k],
    ensures
        mirrors(after_update(files, changed, key, n), changed, n),
{
    let name = cache_file_name(key, n);
    let m = updated_meaning(file_at(files, name), changed, key);
    let files2 = after_update(files, changed, key, n);
    assert forall|k: Seq<char>| #[trigger] changed.contains_key(k) implies {
        &&& file_at(files2, cache_file_name(k, n)).contains_key(k)
        &&& file_at(files2, cache_file_name(k, n))[k] == changed[k]
    } by {
        if k != key {
            assert(table.contains_key(k));
            if cache_file_name(k, n) == name {
                assert(m.contains_key(k));
            }
        } else {
            assert(m.contains_key(k));
        }
    }
    assert forall|f: Seq<char>, k: Seq<char>| #[trigger] files2.contains_key(f) && #[trigger] files2[f].contains_key(k) implies {
        &&& f == cache_file_name(k, n)
        &&& changed.contains_key(k)
        &&& files2[f][k] == changed[k]
    } by {
        if f == name {
            assert(m != Entries::empty());
            assert(files2[f] == m);
            if k != key {
                assert(m.contains_key(k));
                assert(file_at(files, name).contains_key(k));
                assert(files.contains_key(name));
                assert(files[name].contains_key(k));
                assert(name == cache_file_name(k, n));
                assert(table.contains_key(k));
                assert(m[k] == files[name][k]);
                assert(changed.contains_key(k));
                assert(files2[f][k] == changed[k]);
            } else {
                assert(changed.contains_key(key));
                assert(files2[f][k] == changed[k]);
            }
        } else {
            assert(files2.contains_key(f));
            assert(files.contains_key(f));
            assert(files2[f] == files[f]);
            assert(files[f].contains_key(k));
            assert(f == cache_file_name(k, n));
            assert(k != key);
            assert(table.contains_key(k));
            assert(changed.contains_key(k));
            assert(files2[f][k] == changed[k]);
        }
    }
}

/// After clearing, no file and no entry: the files mirror the table.
pub proof fn law_clear_keeps_mirror(n: usize)
    ensures
        mirrors(Files::empty(), Entries::empty(), n),
{
}

/// Restarting from the files gives the table back: loading every file, in any order, into
/// an empty table yields exactly the table that the files mirror, so every entry survives
/// a drop and a new start with its bytes and expiry time.
pub proof fn law_reload_restores_table(files: Files, table: Entries, n: usize, order: Seq<Seq<char>>)
    requires
        mirrors(files, table, n),
        order.to_set() == files.dom(),
    ensures
        load_all(files, order) == table,
{
    lemma_load_prefix(files, table, n, order);
    assert forall|k: Seq<char>| #[trigger] table.contains_key(k) implies order.contains(cache_file_name(k, n)) by {
        assert(files.contains_key(cache_file_name(k, n)));
        assert(order.to_set().contains(cache_file_name(k, n)));
    }
    assert(load_all(files, order) =~= table);
}

/// Loading the files in `order` gives the table's entries whose file is in `order`.
pub proof fn lemma_load_prefix(files: Files, table: Entries, n: usize, order: Seq<Seq<char>>)
    requires
        mirrors(files, table, n),
    ensures
        load_all(files, order) == Map::new(
            |k: Seq<char>| table.contains_key(k) && order.contains(cache_file_name(k, n)),
            |k: Seq<char>| table[k],
        ),
    decreases order.len(),
{
    let target = Map::new(
        |k: Seq<char>| table.contains_key(k) && order.contains(cache_file_name(k, n)),
        |k: Seq<char>| table[k],
    );
    if order.len() == 0 {
        assert(load_all(files, order) =~= target);
    } else {
        let rest = order.drop_last();
        let f = order.last();
        lemma_load_prefix(files, table, n, rest);
        let prev = load_all(files, rest);
        let file = file_at(files, f);
        assert forall|k: Seq<char>| #[trigger] load_all(files, order).contains_key(k) == target.contains_key(k) by {
            if order.contains(cache_file_name(k, n)) {
                let i = choose|i: int| 0 <= i < order.len() && order[i] == cache_file_name(k, n);
                if i < order.len() - 1 {
                    assert(rest[i] == order[i]);
                }
            }
            if rest.contains(cache_file_name(k, n)) {
                let i = choose|i: int| 0 <= i < rest.len() && rest[i] == cache_file_name(k, n);
                assert(order[i] == rest[i]);
            }
            if file.contains_key(k) {
                assert(files.contains_key(f));
                assert(files[f].contains_key(k));
                assert(order[order.len() - 1] == f);
            }
            if table.contains_key(k) && cache_file_name(k, n) == f {
                assert(file_at(files, cache_file_name(k, n)).contains_key(k));
            }
        }
        assert forall|k: Seq<char>| #[trigger] load_all(files, order).contains_key(k) implies load_all(files, order)[k] == target[k] by {
            if file.contains_key(k) {
                assert(files.contains_key(f));
                assert(files[f].contains_key(k));
            }
        }
        assert(load_all(files, order) =~= target);
    }
}

/// One change of a session as the table and the files see it: a key stored (by a set), a
/// key dropped (by a remove or a cleanup round), or everything cleared.
pub enum Change {
    Put(Seq<char>, (Seq<u8>, u128)),
    Remove(Seq<char>),
    Clear,
}

/// The table after a change.
pub open spec fn change_table(table: Entries, c: Change) -> Entries {
    match c {
        Change::Put(k, v) => table.insert(k, v),
        Change::Remove(k) => table.remove(k),
        Change::Clear => Entries::empty(),
    }
}

/// The files after a change, once the changed key's file is brought up to date with the
/// new table (`changed`) as `Cache::persist_plan` plans it, or all files are removed when
/// the cache is cleared.
pub open spec fn change_files(files: Files, changed: Entries, c: Change, n: usize) -> Files {
    match c {
        Change::Put(k, _) => after_update(files, changed, k, n),
        Change::Remove(k) => after_update(files, changed, k, n),
        Change::Clear => Files::empty(),
    }
}

/// The files and the table after the changes of a session, one after the other.
pub open spec fn session(files: Files, table: Entries, changes: Seq<Change>, n: usize) -> (Files, Entries)
    decreases changes.len(),
{
    if changes.len() == 0 {
        (files, table)
    } else {
        let before = session(files, table, changes.drop_last(), n);
        let t = change_table(before.1, changes.last());
        (change_files(before.0, t, changes.last(), n), t)
    }
}

/// Over a whole session of sets, removals, cleanup rounds and clears, each followed by the
/// planned update of the files, the files keep mirroring the table.
pub proof fn law_session_keeps_mirror(files: Files, table: Entries, changes: Seq<Change>, n: usize)
    requires
        mirrors(files, table, n),
    ensures
        mirrors(session(files, table, changes, n).0, session(files, table, changes, n).1, n),
    decreases changes.len(),
{
    if changes.len() > 0 {
        law_session_keeps_mirror(files, table, changes.drop_last(), n);
        let before = session(files, table, changes.drop_last(), n);
        let c = changes.last();
        let t = change_table(before.1, c);
        match c {
            Change::Put(k, v) => {
                law_update_keeps_mirror(before.0, before.1, t, k, n);
            },
            Change::Remove(k) => {
                law_update_keeps_mirror(before.0, before.1, t, k, n);
            },
            Change::Clear => {
                law_clear_keeps_mirror(n);
            },
        }
    }
}

/// Entries survive a restart: a session that starts with no file and no entry leaves files
/// that, loaded in any order into an empty table after a drop, give back the session's
/// table with every entry's bytes and expiry time.
pub proof fn law_session_survives_restart(changes: Seq<Change>, n: usize, order: Seq<Seq<char>>)
    requires
        order.to_set() == session(Files::empty(), Entries::empty(), changes, n).0.dom(),
    ensures
        load_all(session(Files::empty(), Entries::empty(), changes, n).0, order)
            == session(Files::empty(), Entries::empty(), changes, n).1,
{
    law_clear_keeps_mirror(n);
    law_session_keeps_mirror(Files::empty(), Entries::empty(), changes, n);
    let end = session(Files::empty(), Entries::empty(), changes, n);
    law_reload_restores_table(end.0, end.1, n, order);
}

} // verus!
