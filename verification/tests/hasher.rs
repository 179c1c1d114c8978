use gphoto_sort::hasher::{hash_bytes, ContentHasher, BUF_SIZE};

#[test]
fn digest_of_nothing() {
    assert_eq!(hash_bytes(b""), "d41d8cd98f00b204e9800998ecf8427e");
    assert_eq!(ContentHasher::new().digest(), "d41d8cd98f00b204e9800998ecf8427e");
}

#[test]
fn digests_of_known_content() {
    assert_eq!(
        hash_bytes(b"The quick brown fox jumps over the lazy dog"),
        "9e107d9d372bb6826bd81d3542a419d6"
    );
    assert_eq!(
        hash_bytes(b"The quick brown fox jumps over the lazy dog."),
        "e4d909c290d0fb1ca068ffaddf22cbd0"
    );
}

#[test]
fn pieces_hash_as_the_whole() {
    let mut hasher = ContentHasher::new();
    assert!(hasher.update(b"The quick brown fox "));
    assert!(hasher.update(b""));
    assert!(hasher.update(b"jumps over the lazy dog"));
    assert_eq!(hasher.digest(), "9e107d9d372bb6826bd81d3542a419d6");
}

#[test]
fn content_longer_than_a_buffer_hashes_the_same_in_any_cut() {
    let content: Vec<u8> = (0..(BUF_SIZE + 4321)).map(|i| (i % 251) as u8).collect();
    let whole = hash_bytes(&content);
    let mut by_buffer = ContentHasher::new();
    for chunk in content.chunks(BUF_SIZE) {
        assert!(by_buffer.update(chunk));
    }
    let mut by_small = ContentHasher::new();
    for chunk in content.chunks(4097) {
        assert!(by_small.update(chunk));
    }
    assert_eq!(by_buffer.digest(), whole);
    assert_eq!(by_small.digest(), whole);
    assert_eq!(whole.len(), 32);
}

#[test]
fn different_content_has_different_digests() {
    assert_ne!(hash_bytes(b"one picture"), hash_bytes(b"another picture"));
    assert_ne!(hash_bytes(b"a"), hash_bytes(b""));
}

#[test]
fn same_content_has_the_same_digest() {
    let picture = b"bytes of a picture".to_vec();
    let copy = picture.clone();
    assert_eq!(hash_bytes(&picture), hash_bytes(&copy));
}

#[test]
fn buffer_is_one_mebibyte() {
    assert_eq!(BUF_SIZE, 1_048_576);
}
