use stringvault::crypto::{
    derive_crypto_key, derive_key_from_password, generate_password, hash_username, to_hex,
    KDF_ROUNDS,
};

#[test]
fn hex_has_two_lower_case_digits_per_byte() {
    assert_eq!(to_hex(&[0x00, 0xff, 0x1a, 0x09]), "00ff1a09");
    assert_eq!(to_hex(&[]), "");
}

#[test]
fn partition_is_the_blake3_hex_digest_of_the_username() {
    let expected = blake3::hash(b"alice").to_hex().to_string();
    assert_eq!(hash_username("alice"), expected);
    assert_eq!(hash_username("alice").len(), 64);
    assert_ne!(hash_username("alice"), "alice");
    assert_eq!(hash_username("alice"), hash_username("alice"));
}

#[test]
fn derived_key_is_pbkdf2_hmac_sha256() {
    let mut expected = [0u8; 32];
    pbkdf2::pbkdf2_hmac::<sha2::Sha256>(b"password", b"salt", KDF_ROUNDS, &mut expected);
    assert_eq!(derive_crypto_key("password", "salt"), expected.to_vec());
    assert_eq!(derive_key_from_password("salt", "password"), expected.to_vec());
    assert_ne!(derive_crypto_key("password", "pepper"), expected.to_vec());
}

#[test]
fn passphrases_are_fresh_hex_strings() {
    let a = generate_password().unwrap();
    let b = generate_password().unwrap();
    assert_eq!(a.len(), 32);
    assert!(a.chars().all(|c| c.is_ascii_hexdigit() && !c.is_ascii_uppercase()));
    assert_ne!(a, b);
}
