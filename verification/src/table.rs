use dashmap::DashMap;
use vstd::prelude::*;

verus! {

#[verifier::external_type_specification]
#[verifier::external_body]
#[verifier::reject_recursive_types(K)]
#[verifier::reject_recursive_types(V)]
#[verifier::reject_recursive_types(S)]
pub struct ExDashMap<K, V, S>(DashMap<K, V, S>);

/// The shared map that holds the cache entries: key to (stored bytes, expiry time).
pub type EntryMap = DashMap<String, (Vec<u8>, u128)>;

/// The abstract contents of the table: key, stored bytes and expiry time.
pub type Entries = Map<Seq<char>, (Seq<u8>, u128)>;

/// What a `DashMap` of cache entries holds, as a map over plain values.
pub uninterp spec fn dashmap_entries(m: EntryMap) -> Entries;

/// The view of one stored pair of bytes and expiry time.
pub open spec fn stored_view(v: (Vec<u8>, u128)) -> (Seq<u8>, u128) {
    (v.0@, v.1)
}

/// `DashMap::new`: the new map holds no entry.
#[verifier::external_body]
fn dashmap_new() -> (m: EntryMap)
    ensures
        dashmap_entries(m) == Entries::empty(),
        dashmap_entries(m).dom().finite(),
{
    DashMap::new()
}

/// `DashMap::insert`: the key now maps to the value; every other key is unchanged.
/// The value that was replaced, which the method hands back, is dropped here.
#[verifier::external_body]
fn dashmap_insert(m: &mut EntryMap, key: String, value: (Vec<u8>, u128))
    ensures
        dashmap_entries(*final(m)) == dashmap_entries(*old(m)).insert(key@, stored_view(value)),
{
    m.insert(key, value);
}

/// `DashMap::get`: a copy of the value stored under the key, if there is one.
#[verifier::external_body]
fn dashmap_get(m: &EntryMap, key: &str) -> (r: Option<(Vec<u8>, u128)>)
    ensures
        match r {
            Some(v) => dashmap_entries(*m).contains_key(key@)
                && dashmap_entries(*m)[key@] == stored_view(v),
            None => !dashmap_entries(*m).contains_key(key@),
        },
{
    match m.get(key) {
        Some(entry) => Some(entry.value().clone()),
        None => None,
    }
}

/// `DashMap::remove`: the key no longer has an entry; every other key is unchanged.
/// The removed pair, which the method hands back, is dropped here.
#[verifier::external_body]
fn dashmap_remove(m: &mut EntryMap, key: &str)
    ensures
        dashmap_entries(*final(m)) == dashmap_entries(*old(m)).remove(key@),
{
    m.remove(key);
}

/// `DashMap::clear`: no entry is left.
#[verifier::external_body]
fn dashmap_clear(m: &mut EntryMap)
    ensures
        dashmap_entries(*final(m)) == Entries::empty(),
{
    m.clear();
}

/// `DashMap::len`: the number of entries.
#[verifier::external_body]
fn dashmap_len(m: &EntryMap) -> (r: usize)
    ensures
        r == dashmap_entries(*m).len(),
{
    m.len()
}

/// `DashMap::is_empty`: whether there is no entry.
#[verifier::external_body]
fn dashmap_is_empty(m: &EntryMap) -> (r: bool)
    ensures
        r == (dashmap_entries(*m).len() == 0),
{
    m.is_empty()
}

/// `DashMap::iter`: each entry once, in an unspecified order, as its key and its expiry time.
#[verifier::external_body]
fn dashmap_expiries(m: &EntryMap) -> (r: Vec<(String, u128)>)
    ensures
        forall|i: int| #![trigger r@[i]] 0 <= i < r.len() ==> {
            &&& dashmap_entries(*m).contains_key(r@[i].0@)
            &&& dashmap_entries(*m)[r@[i].0@].1 == r@[i].1
        },
        forall|i: int, j: int| 0 <= i < j < r.len() ==> r@[i].0@ != r@[j].0@,
        forall|k: Seq<char>| dashmap_entries(*m).contains_key(k) ==>
            exists|i: int| 0 <= i < r.len() && #[trigger] r@[i].0@ == k,
{
    m.iter().map(|entry| (entry.key().clone(), entry.value().1)).collect()
}

/// The in-memory table of entries.
pub struct EntryTable {
    map: EntryMap,
}

impl EntryTable {
    /// Key to (stored bytes, expiry time in milliseconds since the epoch).
    pub closed spec fn contents(&self) -> Entries {
        dashmap_entries(self.map)
    }

    /// An empty table.
    pub fn new() -> (t: Self)
        ensures
            t.contents() == Entries::empty(),
    {
        EntryTable { map: dashmap_new() }
    }

    /// Stores `value` under `key`, replacing what was there.
    pub fn insert(&mut self, key: String, value: Vec<u8>, expires_at: u128)
        ensures
            final(self).contents() == old(self).contents().insert(key@, (value@, expires_at)),
    {
        dashmap_insert(&mut self.map, key, (value, expires_at));
    }

    /// The bytes and expiry time stored under `key`, if any.
    pub fn get(&self, key: &str) -> (r: Option<(Vec<u8>, u128)>)
        ensures
            match r {
                Some(v) => self.contents().contains_key(key@)
                    && self.contents()[key@] == (v.0@, v.1),
                None => !self.contents().contains_key(key@),
            },
    {
        dashmap_get(&self.map, key)
    }

    /// Drops the entry of `key`, if any.
    pub fn remove(&mut self, key: &str)
        ensures
            final(self).contents() == old(self).contents().remove(key@),
    {
        dashmap_remove(&mut self.map, key);
    }

    /// Drops every entry.
    pub fn clear(&mut self)
        ensures
            final(self).contents() == Entries::empty(),
    {
        dashmap_clear(&mut self.map);
    }

    /// The number of entries.
    pub fn len(&self) -> (r: usize)
        ensures
            r == self.contents().len(),
    {
        dashmap_len(&self.map)
    }

    /// Whether there is no entry.
    pub fn is_empty(&self) -> (r: bool)
        ensures
            r == (self.contents().len() == 0),
    {
        dashmap_is_empty(&self.map)
    }

    /// The keys whose expiry time is at or before `now`, each once.
    pub fn expired_keys(&self, now: u128) -> (r: Vec<String>)
        ensures
            forall|i: int| #![trigger r@[i]] 0 <= i < r.len() ==> {
                &&& self.contents().contains_key(r@[i]@)
                &&& self.contents()[r@[i]@].1 <= now
            },
            forall|i: int, j: int| 0 <= i < j < r.len() ==> r@[i]@ != r@[j]@,
            forall|k: Seq<char>| #[trigger] self.contents().contains_key(k)
                && self.contents()[k].1 <= now ==> exists|i: int| 0 <= i < r.len() && #[trigger] r@[i]@ == k,
    {
        let all = dashmap_expiries(&self.map);
        let mut out: Vec<String> = Vec::new();
        let mut n: usize = 0;
        let ghost mut picked: Seq<int> = Seq::empty();
        while n < all.len()
            invariant
                n <= all.len(),
                out.len() == picked.len(),
                forall|i: int| 0 <= i < out.len() ==> {
                    &&& 0 <= #[trigger] picked[i] < n
                    &&& out@[i]@ == all@[picked[i]].0@
                    &&& all@[picked[i]].1 <= now
                },
                forall|i: int, j: int| 0 <= i < j < out.len() ==> picked[i] < picked[j],
                forall|j: int| 0 <= j < n && all@[j].1 <= now ==>
                    exists|i: int| 0 <= i < out.len() && #[trigger] picked[i] == j,
                forall|i: int| #![trigger all@[i]] 0 <= i < all.len() ==> {
                    &&& self.contents().contains_key(all@[i].0@)
                    &&& self.contents()[all@[i].0@].1 == all@[i].1
                },
                forall|i: int, j: int| 0 <= i < j < all.len() ==> all@[i].0@ != all@[j].0@,
            decreases all.len() - n,
        {
            if all[n].1 <= now {
                let k = all[n].0.clone();
                out.push(k);
                proof {
                    let old_picked = picked;
                    picked = picked.push(n as int);
                    assert forall|j: int| 0 <= j < n + 1 && all@[j].1 <= now implies
                        exists|i: int| 0 <= i < out.len() && #[trigger] picked[i] == j by {
                        if j < n {
                            let i = choose|i: int| 0 <= i < old_picked.len() && #[trigger] old_picked[i] == j;
                            assert(picked[i] == j);
                        } else {
                            assert(picked[out.len() - 1] == j);
                        }
                    }
                }
            }
            n = n + 1;
        }
        proof {
            assert forall|i: int| #![trigger out@[i]] 0 <= i < out.len() implies {
                &&& self.contents().contains_key(out@[i]@)
                &&& self.contents()[out@[i]@].1 <= now
            } by {
                let j = picked[i];
                assert(out@[i]@ == all@[j].0@ && all@[j].1 <= now);
            }
            assert forall|i: int, j: int| 0 <= i < j < out.len() implies out@[i]@ != out@[j]@ by {
                assert(picked[i] < picked[j]);
            }
            assert forall|k: Seq<char>| #[trigger] self.contents().contains_key(k)
                && self.contents()[k].1 <= now implies exists|i: int| 0 <= i < out.len() && #[trigger] out@[i]@ == k by {
                let j = choose|j: int| 0 <= j < all.len() && #[trigger] all@[j].0@ == k;
                let i = choose|i: int| 0 <= i < out.len() && #[trigger] picked[i] == j;
                assert(out@[i]@ == k);
            }
        }
        out
    }
}

} // verus!
