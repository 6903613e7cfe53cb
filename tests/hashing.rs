use asset_forge::{hash_data, hash_inputs};

#[test]
fn empty_input_digest() {
    assert_eq!(hash_data(b""), 0x2D06_8005_38D3_94C2);
}

#[test]
fn digest_is_deterministic_and_content_sensitive() {
    assert_eq!(hash_data(b"hello"), hash_data(b"hello"));
    assert_ne!(hash_data(b"hello"), hash_data(b"hellp"));
}

#[test]
fn inputs_hash_as_their_concatenation() {
    let parts = vec![b"ab".to_vec(), b"".to_vec(), b"cde".to_vec()];
    assert_eq!(hash_inputs(&parts), hash_data(b"abcde"));
    assert_eq!(hash_inputs(&[]), hash_data(b""));
}
