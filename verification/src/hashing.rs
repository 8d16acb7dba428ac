//! Content-hash key derivation for the embedding cache, and the other cache
//! key schemes: a key is a pure function of the text it names, so the same
//! text always maps to the same cache slot, in this process or any other.

use vstd::prelude::*;
use sha2::Digest;
use crate::text::{chars_vec, prefix_chars, string_from_chars};

verus! {

use vstd::string::StringExecFns;
use vstd::string::StringSliceAdditionalSpecFns;
use vstd::utf8::encode_utf8;

/// What SHA-256 returns for the given input; a function of the bytes alone.
pub uninterp spec fn sha256_of(bytes: Seq<u8>) -> Seq<u8>;

/// Relies on sha2's `Sha256`: a 32-byte digest determined by the input bytes
/// alone, identical across calls, processes and machines.
#[verifier::external_body]
pub(crate) fn sha256(bytes: &[u8]) -> (r: Vec<u8>)
    ensures
        r@ == sha256_of(bytes@),
        r@.len() == 32,
{
    sha2::Sha256::digest(bytes).to_vec()
}

/// The lowercase hex digit for a value below sixteen.
pub open spec fn hex_digit(n: u8) -> char
    recommends
        n < 16,
{
    seq!['0', '1', '2', '3', '4', '5', '6', '7', '8', '9', 'a', 'b', 'c', 'd', 'e', 'f'][n as int]
}

/// Lowercase hex encoding: two digits per byte, high nibble first.
pub open spec fn hex_of(bytes: Seq<u8>) -> Seq<char>
    decreases bytes.len(),
{
    if bytes.len() == 0 {
        Seq::empty()
    } else {
        seq![hex_digit(bytes[0] / 16), hex_digit(bytes[0] % 16)] + hex_of(bytes.drop_first())
    }
}

pub proof fn lemma_hex_of_len(bytes: Seq<u8>)
    ensures
        hex_of(bytes).len() == 2 * bytes.len(),
    decreases bytes.len(),
{
    if bytes.len() > 0 {
        lemma_hex_of_len(bytes.drop_first());
    }
}

/// Relies on hex::encode: each byte becomes two lowercase hex digits, high
/// nibble first, in input order.
#[verifier::external_body]
fn hex_encode(bytes: &[u8]) -> (r: String)
    ensures
        r@ == hex_of(bytes@),
{
    hex::encode(bytes)
}

/// The embedding-cache key for a text: a fixed prefix followed by the first
/// 16 hex digits of the SHA-256 digest of the text's UTF-8 bytes.
pub open spec fn spec_embedding_key(text: Seq<char>) -> Seq<char> {
    "emb:"@ + hex_of(sha256_of(encode_utf8(text))).take(16)
}

/// The key under which a session context is cached.
pub open spec fn spec_session_key(chat_id: Seq<char>) -> Seq<char> {
    "cognitive:session:"@ + chat_id
}

/// The per-day marker key that guards the daily reflection.
pub open spec fn spec_reflection_marker_key(day: Seq<char>) -> Seq<char> {
    "reflected_"@ + day
}

/// Naming scheme for the cache slots the agent uses. The derivations are
/// pure, so a key never depends on anything but the name it encodes.
pub struct CacheService;

impl CacheService {
    /// Derives the embedding-cache key for a text: hash the UTF-8 bytes with
    /// SHA-256 and keep the first 16 lowercase hex digits.
    pub fn embedding_key(text: &str) -> (r: String)
        ensures
            r@ == spec_embedding_key(text@),
    {
        let digest = sha256(text.as_bytes());
        let full_hex = hex_encode(digest.as_slice());
        let hex_chars = chars_vec(full_hex.as_str());
        proof {
            assert(text.spec_bytes() == encode_utf8(text@));
            lemma_hex_of_len(sha256_of(encode_utf8(text@)));
        }
        let short = prefix_chars(&hex_chars, 16);
        let suffix = string_from_chars(&short);
        "emb:".to_owned().concat(suffix.as_str())
    }

    /// The cache key that scopes a session context to one chat.
    pub fn session_key(chat_id: &str) -> (r: String)
        ensures
            r@ == spec_session_key(chat_id@),
    {
        "cognitive:session:".to_owned().concat(chat_id)
    }

    /// The per-day marker key that guards the daily reflection.
    pub fn reflection_marker_key(day: &str) -> (r: String)
        ensures
            r@ == spec_reflection_marker_key(day@),
    {
        "reflected_".to_owned().concat(day)
    }
}

/// Determinism of the cache key: the key is a function of the text and of
/// nothing else, so equal texts always land on the same cache slot, across
/// calls and across process restarts.
pub proof fn lemma_embedding_key_deterministic(a: Seq<char>, b: Seq<char>)
    requires
        a == b,
    ensures
        spec_embedding_key(a) == spec_embedding_key(b),
{
}

} // verus!
