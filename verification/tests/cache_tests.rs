use azera_memory::embedding::{
    decode_embedding, encode_embedding, get_embedding, put_embedding, EMBEDDING_TTL_SECS,
};
use azera_memory::hashing::CacheService;
use azera_memory::kvstore::KvStore;
use sha2::Digest;

const NOW: i64 = 1_700_000_000;

#[test]
fn cache_key_is_stable_across_calls() {
    let k1 = CacheService::embedding_key("hello");
    let k2 = CacheService::embedding_key("hello");
    assert_eq!(k1, k2);
    let other = CacheService::embedding_key("hello!");
    assert_ne!(k1, other);
}

#[test]
fn cache_key_matches_digest_prefix() {
    // The key is the documented derivation: the first 16 lowercase hex
    // digits of the SHA-256 of the text's bytes, under the fixed prefix.
    let text = "the quick brown fox";
    let digest = sha2::Sha256::digest(text.as_bytes());
    let hex_digest = hex::encode(digest);
    let expected = format!("emb:{}", &hex_digest[..16]);
    assert_eq!(CacheService::embedding_key(text), expected);
}

#[test]
fn session_key_scopes_by_chat() {
    assert_eq!(CacheService::session_key("chat-7"), "cognitive:session:chat-7");
}

#[test]
fn embedding_value_round_trips() {
    let v: Vec<u32> = vec![0, 1, 0xdeadbeef, u32::MAX, 42];
    let encoded = encode_embedding(&v);
    let decoded = decode_embedding(&encoded).expect("own encoding must decode");
    assert_eq!(decoded, v);
}

#[test]
fn embedding_value_is_base64_of_le_bytes() {
    // One component 0x04030201 lays out as bytes 1,2,3,4.
    let v: Vec<u32> = vec![0x0403_0201];
    assert_eq!(encode_embedding(&v), "AQIDBA==");
}

#[test]
fn corrupt_cache_entry_reads_as_miss() {
    assert_eq!(decode_embedding("not valid base64!!"), None);
}

#[test]
fn put_then_get_returns_vector_until_expiry() {
    let mut store = KvStore::new();
    let v: Vec<u32> = vec![7, 8, 9];
    put_embedding(&mut store, "some text", &v, NOW);
    // Visible right away and just before expiry.
    assert_eq!(get_embedding(&store, "some text", NOW), Some(v.clone()));
    assert_eq!(get_embedding(&store, "some text", NOW + EMBEDDING_TTL_SECS - 1), Some(v.clone()));
    // Gone at the expiry instant.
    assert_eq!(get_embedding(&store, "some text", NOW + EMBEDDING_TTL_SECS), None);
    // A different text is a different slot.
    assert_eq!(get_embedding(&store, "other text", NOW), None);
}

#[test]
fn embed_cached_calls_provider_once() {
    // A provider stub that counts its calls: the second lookup hits the
    // cache, so the counter stays at one.
    let mut store = KvStore::new();
    let mut provider_calls = 0;
    let text = "hello";

    let mut embed_cached = |store: &mut KvStore, now: i64| -> Vec<u32> {
        if let Some(v) = get_embedding(store, text, now) {
            return v;
        }
        provider_calls += 1;
        let v: Vec<u32> = vec![11, 22, 33];
        put_embedding(store, text, &v, now);
        v
    };

    let first = embed_cached(&mut store, NOW);
    let second = embed_cached(&mut store, NOW + 5);
    assert_eq!(provider_calls, 1);
    assert_eq!(first, second);
}

#[test]
fn kv_store_set_get_del() {
    let mut store = KvStore::new();
    store.set("k", "v".to_string(), 60, NOW);
    assert_eq!(store.get("k", NOW), Some("v".to_string()));
    assert_eq!(store.get("k", NOW + 59), Some("v".to_string()));
    assert_eq!(store.get("k", NOW + 60), None);
    store.set_persistent("p", "forever".to_string());
    assert_eq!(store.get("p", NOW + 1_000_000), Some("forever".to_string()));
    store.del("p");
    assert_eq!(store.get("p", NOW), None);
    // Last writer wins.
    store.set("k", "w".to_string(), 60, NOW);
    assert_eq!(store.get("k", NOW), Some("w".to_string()));
}
