//! The embedding cache: text maps to its vector under a content-hash key,
//! entries expire after seven days, and a corrupt entry reads as a miss.
//!
//! The cache is a pure optimization: the key is a function of the text, the
//! stored value is an exact encoding of the vector, and a lookup before
//! expiry returns precisely what was put. Absence can therefore never change
//! which embedding a text ends up with.

use vstd::prelude::*;
use crate::codec::{
    b64_decode, b64_encode, b64_of, bytes_of_units, bytes_to_units, lemma_units_round_trip,
    units_of_bytes, units_to_bytes,
};
use crate::hashing::{sha256, sha256_of, spec_embedding_key, CacheService};
use crate::kvstore::{entry_live, KvStore};

verus! {

use vstd::string::StringSliceAdditionalSpecFns;
use vstd::utf8::encode_utf8;

/// Embedding-cache entries live for seven days.
pub const EMBEDDING_TTL_SECS: i64 = 604_800;

/// The dimensionality of the deterministic fallback vector.
pub const FALLBACK_DIM: usize = 384;

/// The cache value that stands for a vector: its little-endian byte layout,
/// carried as base64 text.
pub open spec fn spec_embedding_value(v: Seq<u32>) -> Seq<char> {
    b64_of(bytes_of_units(v))
}

/// Serializes a vector of 32-bit components into its cache value.
pub fn encode_embedding(v: &Vec<u32>) -> (r: String)
    requires
        4 * v@.len() <= usize::MAX,
    ensures
        r@ == spec_embedding_value(v@),
{
    let bytes = units_to_bytes(v);
    b64_encode(bytes.as_slice())
}

/// Reads a cache value back into a vector. On the encoding of a vector it
/// yields exactly that vector; text that encodes no byte string at all — a
/// corrupt entry — yields nothing, never an error.
pub fn decode_embedding(s: &str) -> (r: Option<Vec<u32>>)
    ensures
        forall|v: Seq<u32>| s@ == spec_embedding_value(v) ==> r is Some && r->Some_0@ == v,
        r matches Some(v) ==> exists|b: Seq<u8>|
            s@ == (#[trigger] b64_of(b)) && v@ == units_of_bytes(b),
{
    match b64_decode(s) {
        Some(bytes) => {
            let out = bytes_to_units(&bytes);
            proof {
                assert forall|v: Seq<u32>| s@ == spec_embedding_value(v) implies out@ == v by {
                    assert(bytes@ == bytes_of_units(v));
                    lemma_units_round_trip(v);
                }
                assert(s@ == b64_of(bytes@) && out@ == units_of_bytes(bytes@));
            }
            Some(out)
        },
        None => None,
    }
}

/// Writes a computed embedding through to the cache under its content key,
/// to live for the standard seven days.
pub fn put_embedding(store: &mut KvStore, text: &str, embedding: &Vec<u32>, now: i64)
    requires
        old(store).wf(),
        4 * embedding@.len() <= usize::MAX,
        now <= i64::MAX - EMBEDDING_TTL_SECS,
    ensures
        final(store).wf(),
        final(store)@ == old(store)@.insert(
            spec_embedding_key(text@),
            (spec_embedding_value(embedding@), Some((now + EMBEDDING_TTL_SECS) as i64)),
        ),
{
    let key = CacheService::embedding_key(text);
    let value = encode_embedding(embedding);
    store.set(key.as_str(), value, EMBEDDING_TTL_SECS, now);
}

/// Looks the text's embedding up. A missing key, an expired entry and a
/// corrupt entry all read as a miss, never an error; a live entry holding
/// the encoding of a vector reads as exactly that vector, and anything
/// returned decodes a live entry's value.
pub fn get_embedding(store: &KvStore, text: &str, now: i64) -> (r: Option<Vec<u32>>)
    requires
        store.wf(),
    ensures
        ({
            let k = spec_embedding_key(text@);
            &&& forall|v: Seq<u32>|
                store@.contains_key(k) && entry_live(store@[k], now) && store@[k].0
                    == spec_embedding_value(v) ==> r is Some && r->Some_0@ == v
            &&& !(store@.contains_key(k) && entry_live(store@[k], now)) ==> r is None
            &&& r matches Some(v) ==> store@.contains_key(k) && entry_live(store@[k], now)
                && exists|b: Seq<u8>|
                store@[k].0 == (#[trigger] b64_of(b)) && v@ == units_of_bytes(b)
        }),
{
    let key = CacheService::embedding_key(text);
    match store.get(key.as_str(), now) {
        Some(encoded) => decode_embedding(encoded.as_str()),
        None => None,
    }
}

/// Idempotence of the embedding cache: after a vector is put for a text, a
/// lookup of the same text at any instant strictly before the entry's expiry
/// sees a live entry holding exactly that vector's encoding. Together with
/// the lookup contract this means `put` followed by `get` returns the vector
/// unchanged until the time to live has elapsed.
pub proof fn lemma_put_then_get_embedding(
    m: Map<Seq<char>, (Seq<char>, Option<i64>)>,
    text: Seq<char>,
    v: Seq<u32>,
    now: i64,
    later: i64,
)
    requires
        now <= i64::MAX - EMBEDDING_TTL_SECS,
        later < now + EMBEDDING_TTL_SECS,
    ensures
        ({
            let k = spec_embedding_key(text);
            let m2 = m.insert(k, (spec_embedding_value(v), Some((now + EMBEDDING_TTL_SECS) as i64)));
            &&& m2.contains_key(k)
            &&& entry_live(m2[k], later)
            &&& m2[k].0 == spec_embedding_value(v)
        }),
{
}

/// The byte pattern behind the deterministic fallback embedding, used when
/// the embedding provider is unreachable: the text's SHA-256 digest repeated
/// cyclically across the fallback dimensionality. Each byte is later scaled
/// into the provider's value range; the pattern depends on the text alone,
/// so degraded retrieval stays deterministic.
pub fn fallback_embedding_bytes(text: &str) -> (r: Vec<u8>)
    ensures
        r@.len() == FALLBACK_DIM,
        forall|i: int|
            0 <= i < FALLBACK_DIM ==> r@[i] == sha256_of(encode_utf8(text@))[i % 32],
{
    let digest = sha256(text.as_bytes());
    proof {
        assert(text.spec_bytes() == encode_utf8(text@));
    }
    let mut r: Vec<u8> = Vec::new();
    for i in it: 0..FALLBACK_DIM
        invariant
            digest@ == sha256_of(encode_utf8(text@)),
            digest@.len() == 32,
            r@.len() == i,
            forall|j: int| 0 <= j < i ==> r@[j] == digest@[j % 32],
    {
        r.push(digest[i % 32]);
    }
    r
}

} // verus!
