use stringvault::crypto::derive_crypto_key;
use stringvault::{MemoryStore, ObjectKey, SecureStorage, SlotError, StringMap};

#[test]
fn string_map_inserts_replaces_and_removes() {
    let mut m = StringMap::new();
    assert_eq!(m.len(), 0);
    m.insert("a".to_string(), "1".to_string());
    m.insert("b".to_string(), "2".to_string());
    m.insert("a".to_string(), "3".to_string());
    assert_eq!(m.len(), 2);
    assert_eq!(m.get("a").map(|s| s.as_str()), Some("3"));
    assert!(m.contains_key("b"));
    assert_eq!(m.remove("b"), Some("2".to_string()));
    assert_eq!(m.remove("b"), None);
    assert!(!m.contains_key("b"));
    assert_eq!(m.len(), 1);
}

#[test]
fn form_keys_carry_the_form_tag() {
    let k = ObjectKey::new_with_form_tag("s3-prod".to_string());
    assert_eq!(k.tag, "FORM");
    assert_eq!(k.id, "s3-prod");
    assert!(k.same_as(&k.clone()));
    assert!(!k.same_as(&ObjectKey { tag: "FORM".to_string(), id: "s3-dev".to_string() }));
}

#[test]
fn memory_store_saves_replaces_and_deletes() {
    let mut store = MemoryStore::new();
    let k = ObjectKey::new_with_form_tag("a".to_string());
    assert_eq!(store.load(&k), None);
    store.save(k.clone(), vec![1, 2]);
    store.save(k.clone(), vec![3]);
    assert_eq!(store.load(&k), Some(vec![3]));
    assert!(store.contains(&k));
    assert_eq!(store.entries().len(), 1);
    store.delete(&k);
    store.delete(&k);
    assert!(!store.contains(&k));
}

#[test]
fn secure_slot_round_trips_and_hides_plaintext() {
    let mut store = MemoryStore::new();
    let k = ObjectKey::new_with_form_tag("item".to_string());
    let slot = SecureStorage::new(k.clone(), derive_crypto_key("pass", "item"));
    assert_eq!(slot.load(&store), Err(SlotError::NoData));
    assert!(!SecureStorage::is_stored(&store, &k));
    slot.save(&mut store, b"secret data").unwrap();
    assert!(SecureStorage::is_stored(&store, &k));
    let blob = store.load(&k).unwrap();
    assert_eq!(blob.len(), 12 + b"secret data".len() + 16);
    assert!(!blob.windows(6).any(|w| w == b"secret"));
    assert_eq!(slot.load(&store), Ok(b"secret data".to_vec()));
    let other = SecureStorage::new(k.clone(), derive_crypto_key("other", "item"));
    assert_eq!(other.load(&store), Err(SlotError::DecryptFailed));
    SecureStorage::delete(&mut store, &k);
    assert_eq!(slot.load(&store), Err(SlotError::NoData));
}

#[test]
fn short_or_tampered_blob_does_not_decrypt() {
    let mut store = MemoryStore::new();
    let k = ObjectKey::new_with_form_tag("item".to_string());
    let slot = SecureStorage::new(k.clone(), derive_crypto_key("pass", "item"));
    store.save(k.clone(), vec![1, 2, 3]);
    assert_eq!(slot.load(&store), Err(SlotError::DecryptFailed));
    slot.save(&mut store, b"x").unwrap();
    let mut blob = store.load(&k).unwrap();
    let last = blob.len() - 1;
    blob[last] ^= 1;
    store.save(k.clone(), blob);
    assert_eq!(slot.load(&store), Err(SlotError::DecryptFailed));
}

#[test]
fn two_saves_of_the_same_plaintext_differ() {
    let mut store = MemoryStore::new();
    let k = ObjectKey::new_with_form_tag("item".to_string());
    let slot = SecureStorage::new(k.clone(), derive_crypto_key("pass", "item"));
    slot.save(&mut store, b"same").unwrap();
    let first = store.load(&k).unwrap();
    slot.save(&mut store, b"same").unwrap();
    assert_ne!(first, store.load(&k).unwrap());
}

#[test]
fn explicit_nonce_leads_the_blob_and_fixes_it() {
    let mut store = MemoryStore::new();
    let k = ObjectKey::new_with_form_tag("item".to_string());
    let slot = SecureStorage::new(k.clone(), derive_crypto_key("pass", "item"));
    slot.save_with_nonce(&mut store, b"abc", vec![7; 12]).unwrap();
    let first = store.load(&k).unwrap();
    assert_eq!(&first[..12], &[7u8; 12]);
    assert_eq!(slot.load(&store), Ok(b"abc".to_vec()));
    slot.save_with_nonce(&mut store, b"abc", vec![7; 12]).unwrap();
    assert_eq!(store.load(&k).unwrap(), first);
}
