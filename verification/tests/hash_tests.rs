use collector_core::hash::{hash_bytes, hash_chunks, ManifestHasher};

#[test]
fn test_hash_of_hello() {
    assert_eq!(hash_bytes(b"hello"), "aaf4c61ddcc5e8a2dabede0f3b482cd9aea9434d");
}

#[test]
fn test_hash_of_nothing() {
    assert_eq!(hash_bytes(b""), "da39a3ee5e6b4b0d3255bfef95601890afd80709");
    assert_eq!(ManifestHasher::new().finish(), "da39a3ee5e6b4b0d3255bfef95601890afd80709");
    assert_eq!(hash_chunks(&Vec::new()), "da39a3ee5e6b4b0d3255bfef95601890afd80709");
}

#[test]
fn test_hash_ignores_chunking() {
    let whole = hash_bytes(b"hello world");
    assert_eq!(whole, "2aae6c35c94fcfb415dbe95f408b9ce91ee846ed");
    let mut hasher = ManifestHasher::new();
    hasher.update(b"hel");
    hasher.update(b"");
    hasher.update(b"lo wor");
    hasher.update(b"ld");
    assert_eq!(hasher.finish(), whole);
    let chunks = vec![b"hello".to_vec(), b" ".to_vec(), Vec::new(), b"world".to_vec()];
    assert_eq!(hash_chunks(&chunks), whole);
}

#[test]
fn test_hash_is_lower_case_hex_of_forty_digits() {
    let hash = hash_bytes(b"The quick brown fox jumps over the lazy dog");
    assert_eq!(hash, "2fd4e1c67a2d28fced849ee1bb76e7391b93eb12");
    assert_eq!(hash.len(), 40);
    assert!(hash.chars().all(|c| c.is_ascii_digit() || ('a'..='f').contains(&c)));
}

#[test]
fn test_hash_twice_agrees() {
    let data = vec![7u8; 10000];
    let first = hash_chunks(&data.chunks(4096).map(|c| c.to_vec()).collect());
    let second = hash_chunks(&data.chunks(32768).map(|c| c.to_vec()).collect());
    assert_eq!(first, second);
    assert_eq!(first, hash_bytes(&data));
}
