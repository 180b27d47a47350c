use crate::cache::{Cache, CacheError, Registry};
use crate::codec::{
    bincode_decode, bincode_decoding, bincode_encode, bincode_encoding, keys_unique, pairs_map,
    pairs_view, encoded_size_bound, fits_decode_limit, Pairs, PairsView, DECODE_LIMIT,
};
use crate::pairs::{lemma_pairs_map_empty, normalize, put_pair, remove_key};
use crate::table::Entries;
use vstd::prelude::*;

verus! {

/// What to do with a key's file after the key changed.
#[derive(Debug, PartialEq, Eq)]
pub enum FileAction {
    /// Write these bytes as the whole file.
    Write(Vec<u8>),
    /// Remove the file: no entry is left in it.
    Delete,
    /// Leave things as they are: there was no file and none is needed.
    Keep,
}

/// The plain view of the bytes of a key's file, if the file exists.
pub open spec fn existing_view(existing: Option<&[u8]>) -> Option<Seq<u8>> {
    match existing {
        Some(b) => Some(b@),
        None => None,
    }
}

/// What a key's file holds before the update: nothing when there is no file, what its
/// bytes decode to otherwise, `None` when they do not decode.
pub open spec fn file_meaning(existing: Option<Seq<u8>>) -> Option<Entries> {
    match existing {
        None => Some(Entries::empty()),
        Some(b) => match bincode_decoding(b) {
            Some(s) => Some(pairs_map(s)),
            None => None,
        },
    }
}

/// What a key's file must hold after the update: the key's current entry in the table,
/// or no entry for the key when the table holds none; the other keys as before.
pub open spec fn updated_meaning(file: Entries, table: Entries, key: Seq<char>) -> Entries {
    if table.contains_key(key) {
        file.insert(key, table[key])
    } else {
        file.remove(key)
    }
}

/// `bytes` are the encoding of a list of entries, each key once, that means `m`, and
/// whose size bound, which bounds the bytes, is within the decoding limit.
pub open spec fn encodes(bytes: Seq<u8>, m: Entries) -> bool {
    exists|s: PairsView| #[trigger] bincode_encoding(s) == bytes && keys_unique(s) && pairs_map(s) == m
        && bytes.len() <= encoded_size_bound(s) && encoded_size_bound(s) <= DECODE_LIMIT
}

/// Every list of entries, each key once, that means `m` is beyond the decoding limit.
pub open spec fn too_large(m: Entries) -> bool {
    exists|s: PairsView| keys_unique(s) && #[trigger] pairs_map(s) == m && encoded_size_bound(s) > DECODE_LIMIT
}

impl Cache {
    /// Reads one cache file's bytes and stores each of its entries in the table; a key
    /// that occurs twice in the file takes its last entry. Bytes that do not decode are
    /// refused and the table is left as it was.
    pub fn load_file(&self, reg: &mut Registry, bytes: &[u8]) -> (r: Result<(), CacheError>)
        ensures
            match bincode_decoding(bytes@) {
                Some(s) => r is Ok && final(reg).entries() == old(reg).entries().union_prefer_right(pairs_map(s)),
                None => r == Err::<(), CacheError>(CacheError::Decode) && final(reg).entries() == old(reg).entries(),
            },
            forall|s: PairsView| #[trigger] bincode_encoding(s) == bytes@ && encoded_size_bound(s) <= DECODE_LIMIT
                ==> r is Ok && final(reg).entries() == old(reg).entries().union_prefer_right(pairs_map(s)),
            final(reg).run_state() == old(reg).run_state(),
            final(reg).current() == old(reg).current(),
            final(reg).cleanup_active() == old(reg).cleanup_active(),
    {
        let pairs = match bincode_decode(bytes) {
            Ok(v) => v,
            Err(_) => return Err(CacheError::Decode),
        };
        let ghost s = pairs_view(pairs@);
        let ghost start = reg.entries();
        let mut i: usize = 0;
        proof {
            assert(s.take(0) =~= Seq::empty());
            assert(start.union_prefer_right(pairs_map(s.take(0))) =~= start);
        }
        while i < pairs.len()
            invariant
                i <= pairs.len(),
                s == pairs_view(pairs@),
                reg.entries() == start.union_prefer_right(pairs_map(s.take(i as int))),
                reg.run_state() == old(reg).run_state(),
                reg.current() == old(reg).current(),
                reg.cleanup_active() == old(reg).cleanup_active(),
            decreases pairs.len() - i,
        {
            proof {
                assert(s.take(i + 1).drop_last() =~= s.take(i as int));
                assert(s.take(i + 1).last() == s[i as int]);
            }
            let k = pairs[i].0.clone();
            let v = pairs[i].1.0.clone();
            reg.put_entry(k, v, pairs[i].1.1);
            proof {
                assert(reg.entries() =~= start.union_prefer_right(pairs_map(s.take(i + 1))));
            }
            i = i + 1;
        }
        proof {
            assert(s.take(pairs.len() as int) =~= s);
        }
        Ok(())
    }

    /// Works out what the file of `key` must become now that the key changed, from the
    /// file's bytes (`None` when there is no file) and the key's entry in the table: the
    /// file keeps its other entries and takes the key's entry, or loses it when the table
    /// holds none. A file left without entries is removed. A file whose entries would
    /// take more than `DECODE_LIMIT` bytes to decode (more than Rust can allocate) is
    /// refused, so every file written can be read back.
    pub fn persist_plan(&self, reg: &Registry, key: &str, existing: Option<&[u8]>) -> (r: Result<FileAction, CacheError>)
        ensures
            match file_meaning(existing_view(existing)) {
                None => r == Err::<FileAction, CacheError>(CacheError::Decode),
                Some(m) => {
                    let after = updated_meaning(m, reg.entries(), key@);
                    if after == Entries::empty() {
                        r == Ok::<FileAction, CacheError>(
                            if existing is Some { FileAction::Delete } else { FileAction::Keep },
                        )
                    } else {
                        ||| r matches Ok(FileAction::Write(b)) && encodes(b@, after)
                        ||| r == Err::<FileAction, CacheError>(CacheError::TooLarge) && too_large(after)
                    }
                },
            },
    {
        let decoded: Pairs = match existing {
            None => Vec::new(),
            Some(b) => match bincode_decode(b) {
                Ok(v) => v,
                Err(_) => return Err(CacheError::Decode),
            },
        };
        proof {
            if existing is None {
                assert(pairs_view(decoded@) =~= Seq::empty());
            }
        }
        let ghost m = pairs_map(pairs_view(decoded@));
        let pairs = normalize(decoded);
        let k = key.to_owned();
        let pairs = match reg.entries_get(key) {
            Some((bytes, expires_at)) => put_pair(pairs, k, bytes, expires_at),
            None => {
                let r = remove_key(pairs, &k);
                proof {
                    crate::pairs::lemma_without_key_map(pairs_view(pairs@), k@);
                    crate::pairs::lemma_without_key_unique(pairs_view(pairs@), k@);
                }
                r
            },
        };
        let ghost after = updated_meaning(m, reg.entries(), key@);
        assert(pairs_map(pairs_view(pairs@)) == after);
        proof {
            lemma_pairs_map_empty(pairs_view(pairs@));
        }
        if pairs.len() == 0 {
            if existing.is_some() {
                Ok(FileAction::Delete)
            } else {
                Ok(FileAction::Keep)
            }
        } else {
            if !fits_decode_limit(&pairs) {
                assert(too_large(after));
                return Err(CacheError::TooLarge);
            }
            let b = bincode_encode(&pairs).unwrap();
            assert(bincode_encoding(pairs_view(pairs@)) == b@);
            Ok(FileAction::Write(b))
        }
    }
}

} // verus!
