use crate::codec::{keys_unique, pairs_map, pairs_view, Pairs, PairsView};
use crate::table::Entries;
use vstd::prelude::*;

verus! {

/// The list without the pairs of key `k`, in the same order.
pub open spec fn without_key(s: PairsView, k: Seq<char>) -> PairsView
    decreases s.len(),
{
    if s.len() == 0 {
        s
    } else if s.last().0 == k {
        without_key(s.drop_last(), k)
    } else {
        without_key(s.drop_last(), k).push(s.last())
    }
}

/// Dropping a key's pairs from the list drops the key from what the list means.
pub proof fn lemma_without_key_map(s: PairsView, k: Seq<char>)
    ensures
        pairs_map(without_key(s, k)) == pairs_map(s).remove(k),
    decreases s.len(),
{
    if s.len() == 0 {
        assert(pairs_map(s) =~= pairs_map(s).remove(k));
    } else {
        let rest = s.drop_last();
        lemma_without_key_map(rest, k);
        if s.last().0 == k {
            assert(pairs_map(s).remove(k) =~= pairs_map(rest).remove(k));
        } else {
            let w = without_key(rest, k);
            assert(w.push(s.last()).drop_last() =~= w);
            assert(pairs_map(w.push(s.last())) =~= pairs_map(s).remove(k));
        }
    }
}

/// Each pair left is a pair of the list, and none has key `k`.
pub proof fn lemma_without_key_members(s: PairsView, k: Seq<char>)
    ensures
        forall|i: int| 0 <= i < without_key(s, k).len() ==>
            s.contains(#[trigger] without_key(s, k)[i]) && without_key(s, k)[i].0 != k,
        without_key(s, k).len() <= s.len(),
    decreases s.len(),
{
    if s.len() > 0 {
        let rest = s.drop_last();
        lemma_without_key_members(rest, k);
        let w = without_key(s, k);
        assert forall|i: int| 0 <= i < w.len() implies s.contains(#[trigger] w[i]) && w[i].0 != k by {
            if s.last().0 != k && i == w.len() - 1 {
                assert(s[s.len() - 1] == w[i]);
            } else {
                assert(without_key(rest, k)[i] == w[i]);
                let j = choose|j: int| 0 <= j < rest.len() && rest[j] == w[i];
                assert(s[j] == w[i]);
            }
        }
    }
}

/// Dropping a key's pairs keeps the keys of the list unique.
pub proof fn lemma_without_key_unique(s: PairsView, k: Seq<char>)
    requires
        keys_unique(s),
    ensures
        keys_unique(without_key(s, k)),
    decreases s.len(),
{
    if s.len() > 0 {
        let rest = s.drop_last();
        assert(keys_unique(rest)) by {
            assert forall|i: int, j: int| 0 <= i < j < rest.len() implies rest[i].0 != rest[j].0 by {
                assert(s[i] == rest[i] && s[j] == rest[j]);
            }
        }
        lemma_without_key_unique(rest, k);
        if s.last().0 != k {
            let w = without_key(rest, k);
            lemma_without_key_members(rest, k);
            let w2 = w.push(s.last());
            assert forall|i: int, j: int| 0 <= i < j < w2.len() implies w2[i].0 != w2[j].0 by {
                if j == w2.len() - 1 {
                    assert(w2[i] == w[i]);
                    assert(rest.contains(w[i]));
                    let m = choose|m: int| 0 <= m < rest.len() && rest[m] == w[i];
                    assert(s[m] == rest[m]);
                    assert(s[s.len() - 1] == s.last());
                } else {
                    assert(w2[i] == w[i] && w2[j] == w[j]);
                }
            }
        }
    }
}

/// A list means nothing exactly when it is empty.
pub proof fn lemma_pairs_map_empty(s: PairsView)
    ensures
        (pairs_map(s) == Entries::empty()) <==> s.len() == 0,
{
    if s.len() > 0 {
        assert(pairs_map(s).contains_key(s.last().0));
    } else {
        assert(pairs_map(s) =~= Entries::empty());
    }
}

/// The list without the pairs of `key`.
pub fn remove_key(v: Pairs, key: &String) -> (r: Pairs)
    ensures
        pairs_view(r@) == without_key(pairs_view(v@), key@),
{
    let ghost s = pairs_view(v@);
    let mut out: Pairs = Vec::new();
    let mut i: usize = 0;
    while i < v.len()
        invariant
            i <= v.len(),
            s == pairs_view(v@),
            pairs_view(out@) == without_key(s.take(i as int), key@),
        decreases v.len() - i,
    {
        proof {
            assert(s.take(i + 1).drop_last() =~= s.take(i as int));
            assert(s.take(i + 1).last() == s[i as int]);
        }
        if v[i].0 != *key {
            let p = (v[i].0.clone(), (v[i].1.0.clone(), v[i].1.1));
            let ghost before = out@;
            out.push(p);
            proof {
                assert(pairs_view(out@) =~= pairs_view(before).push(s[i as int]));
            }
        }
        i = i + 1;
    }
    proof {
        assert(s.take(v.len() as int) =~= s);
    }
    out
}

/// The list with `key` mapped to `value`: the key's earlier pairs dropped and the new
/// pair put last.
pub fn put_pair(v: Pairs, key: String, value: Vec<u8>, expires_at: u128) -> (r: Pairs)
    ensures
        pairs_view(r@) == without_key(pairs_view(v@), key@).push((key@, (value@, expires_at))),
        pairs_map(pairs_view(r@)) == pairs_map(pairs_view(v@)).insert(key@, (value@, expires_at)),
        keys_unique(pairs_view(v@)) ==> keys_unique(pairs_view(r@)),
{
    let mut out = remove_key(v, &key);
    let ghost w = pairs_view(out@);
    let ghost kv = key@;
    out.push((key, (value, expires_at)));
    proof {
        let p = (kv, (value@, expires_at));
        assert(pairs_view(out@) =~= w.push(p));
        assert(w.push(p).drop_last() =~= w);
        lemma_without_key_map(pairs_view(v@), kv);
        assert(pairs_map(w.push(p)) =~= pairs_map(pairs_view(v@)).insert(kv, (value@, expires_at)));
        if keys_unique(pairs_view(v@)) {
            lemma_without_key_unique(pairs_view(v@), kv);
            lemma_without_key_members(pairs_view(v@), kv);
            let w2 = w.push(p);
            assert forall|i: int, j: int| 0 <= i < j < w2.len() implies w2[i].0 != w2[j].0 by {
                if j == w2.len() - 1 {
                    assert(w2[i] == w[i]);
                } else {
                    assert(w2[i] == w[i] && w2[j] == w[j]);
                }
            }
        }
    }
    out
}

/// The same entries with each key once, at the place of its last pair's rewrite.
pub fn normalize(v: Pairs) -> (r: Pairs)
    ensures
        pairs_map(pairs_view(r@)) == pairs_map(pairs_view(v@)),
        keys_unique(pairs_view(r@)),
{
    let ghost s = pairs_view(v@);
    let mut out: Pairs = Vec::new();
    let mut i: usize = 0;
    proof {
        assert(pairs_view(out@) =~= Seq::empty());
        assert(s.take(0) =~= Seq::empty());
    }
    while i < v.len()
        invariant
            i <= v.len(),
            s == pairs_view(v@),
            pairs_map(pairs_view(out@)) == pairs_map(s.take(i as int)),
            keys_unique(pairs_view(out@)),
        decreases v.len() - i,
    {
        proof {
            assert(s.take(i + 1).drop_last() =~= s.take(i as int));
            assert(s.take(i + 1).last() == s[i as int]);
        }
        let k = v[i].0.clone();
        let b = v[i].1.0.clone();
        out = put_pair(out, k, b, v[i].1.1);
        i = i + 1;
    }
    proof {
        assert(s.take(v.len() as int) =~= s);
    }
    out
}

} // verus!
