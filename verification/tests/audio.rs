use wechat_pc_auto::audio::url_hash;

#[test]
fn test_url_hash() {
    let hash1 = url_hash("https://example.com/audio1.mp3");
    let hash2 = url_hash("https://example.com/audio2.mp3");

    assert_eq!(hash1.len(), 16);
    assert_eq!(hash2.len(), 16);

    assert_ne!(hash1, hash2);

    let hash1_again = url_hash("https://example.com/audio1.mp3");
    assert_eq!(hash1, hash1_again);
}

#[test]
fn url_hash_is_the_sha256_prefix_in_hex() {
    // SHA-256("abc") = ba7816bf8f01cfea414140de5dae2223...
    assert_eq!(url_hash("abc"), "ba7816bf8f01cfea");
}
