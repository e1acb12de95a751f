use code_nix::hashes::{content_hash, hex_encode};

#[test]
fn content_hash_of_empty_input_is_the_known_digest() {
    let bytes: Vec<u8> = Vec::new();
    assert_eq!(
        content_hash(&bytes),
        "e3b0c44298fc1c149afbf4c8996fb92427ae41e4649b934ca495991b7852b855"
    );
}

#[test]
fn content_hash_matches_a_known_vector() {
    let bytes = b"abc".to_vec();
    assert_eq!(
        content_hash(&bytes),
        "ba7816bf8f01cfea414140de5dae2223b00361a396177a9cb410ff61f20015ad"
    );
}

#[test]
fn content_hash_is_sixty_four_hex_characters() {
    let bytes = b"some artifact bytes".to_vec();
    let h = content_hash(&bytes);
    assert_eq!(h.len(), 64);
    assert!(h.chars().all(|c| c.is_ascii_hexdigit() && !c.is_ascii_uppercase()));
}

#[test]
fn hex_encoding_is_two_lowercase_digits_per_byte() {
    assert_eq!(hex_encode(&vec![]), "");
    assert_eq!(hex_encode(&vec![0x00, 0xff, 0x1a]), "00ff1a");
}
