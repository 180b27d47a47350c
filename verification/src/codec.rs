use crate::table::Entries;
use bincode::error::{DecodeError, EncodeError};
use vstd::prelude::*;

verus! {

#[verifier::external_type_specification]
#[verifier::external_body]
pub struct ExEncodeError(EncodeError);

#[verifier::external_type_specification]
#[verifier::external_body]
pub struct ExDecodeError(DecodeError);

/// The entries of one cache file, in file order, as plain values.
pub type PairsView = Seq<(Seq<char>, (Seq<u8>, u128))>;

/// The entries of one cache file, in file order.
pub type Pairs = Vec<(String, (Vec<u8>, u128))>;

/// The plain view of a list of file entries.
pub open spec fn pairs_view(v: Seq<(String, (Vec<u8>, u128))>) -> PairsView {
    Seq::new(v.len(), |i: int| (v[i].0@, (v[i].1.0@, v[i].1.1)))
}

/// The bytes that bincode (standard configuration, big endian, variable-length
/// integers) writes for a list of entries; a map of the same entries in the same
/// order is written the same way.
pub uninterp spec fn bincode_encoding(entries: PairsView) -> Seq<u8>;

/// The most bytes that decoding a cache file may claim for the values it builds: the
/// largest allocation Rust allows. A string claims its length before it is allocated, so
/// no length read from a file can ask for more.
pub const DECODE_LIMIT: usize = isize::MAX as usize;

/// What one entry adds at most to its file's encoding: the key's UTF-8 bytes and the
/// stored bytes, a variable-length integer of at most 9 bytes for each of their lengths,
/// and one of at most 17 bytes for the expiry time. Decoding the entry claims the key's
/// and the value's bytes, 8 bytes for each length and 16 for the expiry time, which is
/// no more.
pub open spec fn pair_size(p: (Seq<char>, (Seq<u8>, u128))) -> nat {
    vstd::utf8::encode_utf8(p.0).len() + p.1.0.len() + 35
}

/// At most how many bytes the encoding of a list of entries takes, and at most how many
/// bytes decoding it claims: 9 for the count, and `pair_size` for each entry.
pub open spec fn encoded_size_bound(s: PairsView) -> nat
    decreases s.len(),
{
    if s.len() == 0 {
        9
    } else {
        encoded_size_bound(s.drop_last()) + pair_size(s.last())
    }
}

/// What bincode (same configuration, with the byte limit `DECODE_LIMIT`) reads back
/// from bytes as a list of entries, `None` where it reports an error.
pub uninterp spec fn bincode_decoding(bytes: Seq<u8>) -> Option<PairsView>;

/// What a list of entries means: each key maps to its last pair in the list.
pub open spec fn pairs_map(s: PairsView) -> Entries
    decreases s.len(),
{
    if s.len() == 0 {
        Entries::empty()
    } else {
        pairs_map(s.drop_last()).insert(s.last().0, s.last().1)
    }
}

/// Whether the encoding of the list, and its decoding, stay within `DECODE_LIMIT`.
pub fn fits_decode_limit(v: &Pairs) -> (r: bool)
    ensures
        r == (encoded_size_bound(pairs_view(v@)) <= DECODE_LIMIT),
{
    let ghost s = pairs_view(v@);
    let limit: u128 = DECODE_LIMIT as u128;
    let mut total: u128 = 9;
    let mut i: usize = 0;
    proof {
        assert(s.take(0) =~= Seq::<(Seq<char>, (Seq<u8>, u128))>::empty());
    }
    while i < v.len()
        invariant
            i <= v.len(),
            s == pairs_view(v@),
            limit == DECODE_LIMIT,
            total == encoded_size_bound(s.take(i as int)),
            total <= limit,
        decreases v.len() - i,
    {
        proof {
            assert(s.take(i + 1).drop_last() =~= s.take(i as int));
            assert(s.take(i + 1).last() == s[i as int]);
        }
        let key = v[i].0.as_str();
        let key_bytes = key.as_bytes().len();
        let add: u128 = key_bytes as u128 + v[i].1.0.len() as u128 + 35;
        proof {
            assert(s[i as int].0 == key@);
            assert(key_bytes == vstd::utf8::encode_utf8(key@).len());
            assert(add == pair_size(s[i as int]));
        }
        if total + add > limit {
            proof {
                lemma_size_bound_prefix(s, i + 1);
            }
            return false;
        }
        total = total + add;
        i = i + 1;
    }
    proof {
        assert(s.take(v.len() as int) =~= s);
    }
    true
}

/// The size bound of a prefix is at most that of the whole list.
pub proof fn lemma_size_bound_prefix(s: PairsView, n: int)
    requires
        0 <= n <= s.len(),
    ensures
        encoded_size_bound(s.take(n)) <= encoded_size_bound(s),
    decreases s.len() - n,
{
    if n < s.len() {
        lemma_size_bound_prefix(s, n + 1);
        assert(s.take(n + 1).drop_last() =~= s.take(n));
    } else {
        assert(s.take(n) =~= s);
    }
}

/// No key occurs twice in the list.
pub open spec fn keys_unique(s: PairsView) -> bool {
    forall|i: int, j: int| 0 <= i < j < s.len() ==> s[i].0 != s[j].0
}

/// `bincode::serde::encode_to_vec` with the standard configuration, big endian and
/// variable-length integers: the bytes are the encoding of the entries. For this list it
/// cannot fail: the `Vec` writer's `write` always returns `Ok`, a `Vec` always gives
/// `serialize_seq` its length, and strings, bytes and integers encode without an error
/// path.
#[verifier::external_body]
pub(crate) fn bincode_encode(entries: &Pairs) -> (r: Result<Vec<u8>, EncodeError>)
    ensures
        r is Ok,
        r matches Ok(bytes) ==> bytes@ == bincode_encoding(pairs_view(entries@)),
        r matches Ok(bytes) ==> bytes@.len() <= encoded_size_bound(pairs_view(entries@)),
{
    bincode::serde::encode_to_vec(
        entries,
        bincode::config::standard().with_big_endian().with_variable_int_encoding(),
    )
}

/// `bincode::serde::decode_from_slice` with the same configuration and the byte limit
/// `DECODE_LIMIT`, read as a list of entries (the count read is dropped). The decoder
/// claims each string's length, and each integer's size, against the limit before it
/// allocates or reads, so a length read from the bytes that is too large is an error
/// (`LimitExceeded`) rather than an allocation of that size. Decoding the encoding of a
/// list claims at most `encoded_size_bound` of it, so such bytes are read back as that
/// list whenever that bound is within the limit.
#[verifier::external_body]
pub(crate) fn bincode_decode(bytes: &[u8]) -> (r: Result<Pairs, DecodeError>)
    ensures
        match r {
            Ok(v) => bincode_decoding(bytes@) == Some(pairs_view(v@)),
            Err(_) => bincode_decoding(bytes@) is None,
        },
        forall|s: PairsView| #[trigger] bincode_encoding(s) == bytes@ && encoded_size_bound(s) <= DECODE_LIMIT
            ==> r is Ok && pairs_view(r->Ok_0@) == s,
{
    match bincode::serde::decode_from_slice(
        bytes,
        bincode::config::standard()
            .with_big_endian()
            .with_variable_int_encoding()
            .with_limit::<DECODE_LIMIT>(),
    ) {
        Ok((v, _)) => Ok(v),
        Err(e) => Err(e),
    }
}

} // verus!
