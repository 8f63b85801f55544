use stringvault::crypto::hash_username;
use stringvault::{MemoryStore, ObjectKey, SecureStorage, StringMap, StringVault, VaultError};

fn map_of(pairs: &[(&str, &str)]) -> StringMap {
    let mut m = StringMap::new();
    for (k, v) in pairs {
        m.insert(k.to_string(), v.to_string());
    }
    m
}

fn sorted(m: &StringMap) -> Vec<(String, String)> {
    let mut v = m.entries().clone();
    v.sort();
    v
}

fn directory_slot(username: &str, password: &str) -> SecureStorage {
    let partition = hash_username(username);
    let key = stringvault::crypto::derive_key_from_password(&partition, password);
    SecureStorage::new(ObjectKey { tag: partition, id: "self".to_string() }, key)
}

#[test]
fn alice_saves_lists_and_loads_prod_bucket() {
    let mut store = MemoryStore::new();
    let vault = StringVault::new_and_validate(&store, "alice", "correct-horse").unwrap();
    let config = map_of(&[("access_key", "AK..."), ("secret_key", "SK...")]);
    vault
        .save_secure_configuration(
            &mut store,
            ObjectKey::new_with_form_tag("s3-prod".to_string()),
            "Prod bucket".to_string(),
            &config,
        )
        .unwrap();
    let listed = vault.list_configurations(&store).unwrap();
    assert_eq!(sorted(&listed), vec![("s3-prod".to_string(), "Prod bucket".to_string())]);
    let loaded = vault
        .load_secure_configuration(&store, ObjectKey::new_with_form_tag("s3-prod".to_string()))
        .unwrap();
    assert_eq!(sorted(&loaded), sorted(&config));
    let missing =
        vault.load_secure_configuration(&store, ObjectKey::new_with_form_tag("s3-dev".to_string()));
    assert!(matches!(missing, Err(VaultError::ConfigurationNotFound)));
}

#[test]
fn name_only_entry_is_listed_but_not_loadable() {
    let mut store = MemoryStore::new();
    let vault = StringVault::new_and_validate(&store, "alice", "correct-horse").unwrap();
    vault
        .add_configuration(
            &mut store,
            ObjectKey::new_with_form_tag("s3-dev".to_string()),
            "Dev bucket".to_string(),
        )
        .unwrap();
    let listed = vault.list_configurations(&store).unwrap();
    assert_eq!(listed.get("s3-dev").map(|s| s.as_str()), Some("Dev bucket"));
    let loaded =
        vault.load_secure_configuration(&store, ObjectKey::new_with_form_tag("s3-dev".to_string()));
    assert!(matches!(loaded, Err(VaultError::ConfigurationNotFound)));
}

#[test]
fn renaming_keeps_saved_content_loadable() {
    let mut store = MemoryStore::new();
    let vault = StringVault::new("carol", "pw");
    let config = map_of(&[("region", "eu-west-1")]);
    let key = ObjectKey::new_with_form_tag("s3-prod".to_string());
    vault.save_secure_configuration(&mut store, key.clone(), "Prod".to_string(), &config).unwrap();
    vault.add_configuration(&mut store, key.clone(), "Production".to_string()).unwrap();
    let listed = vault.list_configurations(&store).unwrap();
    assert_eq!(listed.get("s3-prod").map(|s| s.as_str()), Some("Production"));
    let loaded = vault.load_secure_configuration(&store, key).unwrap();
    assert_eq!(sorted(&loaded), sorted(&config));
}

#[test]
fn saved_configuration_loads_through_reopened_vault() {
    let mut store = MemoryStore::new();
    let config = map_of(&[("user", "ü-ñ \"quoted\""), ("empty", ""), ("k", "v\nw")]);
    let first = StringVault::new_and_validate(&store, "dave", "s3cret").unwrap();
    first
        .save_secure_configuration(
            &mut store,
            ObjectKey::new_with_form_tag("item".to_string()),
            "Item".to_string(),
            &config,
        )
        .unwrap();
    let again = StringVault::new_and_validate(&store, "dave", "s3cret").unwrap();
    let loaded = again
        .load_secure_configuration(&store, ObjectKey::new_with_form_tag("item".to_string()))
        .unwrap();
    assert_eq!(sorted(&loaded), sorted(&config));
}

#[test]
fn wrong_password_is_reported_as_such() {
    let mut store = MemoryStore::new();
    let vault = StringVault::new_and_validate(&store, "erin", "right").unwrap();
    vault
        .add_configuration(&mut store, ObjectKey::new_with_form_tag("a".to_string()), "A".to_string())
        .unwrap();
    let opened = StringVault::new_and_validate(&store, "erin", "wrong");
    assert!(matches!(opened, Err(VaultError::WrongPassword)));
    assert_eq!(StringVault::validate_password(&store, "erin", "wrong"), Ok(false));
    assert_eq!(StringVault::validate_password(&store, "erin", "right"), Ok(true));
    let wrong = StringVault::new("erin", "wrong");
    assert_eq!(wrong.list_configurations(&store).err(), Some(VaultError::WrongPassword));
    let saved = wrong.save_secure_configuration(
        &mut store,
        ObjectKey::new_with_form_tag("b".to_string()),
        "B".to_string(),
        &StringMap::new(),
    );
    assert_eq!(saved, Err(VaultError::WrongPassword));
    assert_eq!(store.entries().len(), 1);
}

#[test]
fn first_use_opens_an_empty_vault() {
    let store = MemoryStore::new();
    assert!(!StringVault::user_exists(&store, "frank"));
    let vault = StringVault::new_and_validate(&store, "frank", "pw").unwrap();
    assert_eq!(vault.list_configurations(&store).unwrap().len(), 0);
    assert_eq!(StringVault::validate_password(&store, "frank", "anything"), Ok(true));
}

#[test]
fn users_with_the_same_password_are_isolated() {
    let mut store = MemoryStore::new();
    assert_ne!(hash_username("alice"), hash_username("bob"));
    let alice = directory_slot("alice", "same");
    let bob = directory_slot("bob", "same");
    let alice_vault = StringVault::new("alice", "same");
    alice_vault
        .add_configuration(&mut store, ObjectKey::new_with_form_tag("a".to_string()), "A".to_string())
        .unwrap();
    assert!(StringVault::user_exists(&store, "alice"));
    assert!(!StringVault::user_exists(&store, "bob"));
    let bob_vault = StringVault::new_and_validate(&store, "bob", "same").unwrap();
    assert_eq!(bob_vault.list_configurations(&store).unwrap().len(), 0);
    let bob_key_at_alice = SecureStorage::new(alice.object_key().clone(), {
        let partition = hash_username("bob");
        stringvault::crypto::derive_key_from_password(&partition, "same")
    });
    assert_eq!(bob_key_at_alice.load(&store), Err(stringvault::SlotError::DecryptFailed));
    assert!(alice.load(&store).is_ok());
    assert_eq!(bob.load(&store), Err(stringvault::SlotError::NoData));
}

#[test]
fn reset_erases_the_directory_but_not_the_payloads() {
    let mut store = MemoryStore::new();
    let vault = StringVault::new_and_validate(&store, "gina", "pw").unwrap();
    let key = ObjectKey::new_with_form_tag("x".to_string());
    vault
        .save_secure_configuration(&mut store, key.clone(), "X".to_string(), &map_of(&[("a", "b")]))
        .unwrap();
    assert_eq!(StringVault::reset_vault(&mut store, "gina"), Ok(()));
    assert!(!StringVault::user_exists(&store, "gina"));
    assert!(store.contains(&key));
    let reopened = StringVault::new_and_validate(&store, "gina", "pw").unwrap();
    assert_eq!(reopened.list_configurations(&store).unwrap().len(), 0);
    assert_eq!(StringVault::reset_vault(&mut store, "gina"), Ok(()));
}

#[test]
fn delete_absent_and_twice_reports_not_found() {
    let mut store = MemoryStore::new();
    let vault = StringVault::new("hank", "pw");
    let one = ObjectKey::new_with_form_tag("one".to_string());
    let two = ObjectKey::new_with_form_tag("two".to_string());
    assert_eq!(
        vault.delete_configuration(&mut store, one.clone()),
        Err(VaultError::ConfigurationNotFound)
    );
    vault
        .save_secure_configuration(&mut store, one.clone(), "One".to_string(), &map_of(&[("n", "1")]))
        .unwrap();
    vault
        .save_secure_configuration(&mut store, two.clone(), "Two".to_string(), &map_of(&[("n", "2")]))
        .unwrap();
    assert_eq!(vault.delete_configuration(&mut store, one.clone()), Ok(()));
    assert_eq!(
        vault.delete_configuration(&mut store, one.clone()),
        Err(VaultError::ConfigurationNotFound)
    );
    let listed = vault.list_configurations(&store).unwrap();
    assert_eq!(sorted(&listed), vec![("two".to_string(), "Two".to_string())]);
    let loaded = vault.load_secure_configuration(&store, two).unwrap();
    assert_eq!(sorted(&loaded), vec![("n".to_string(), "2".to_string())]);
    assert_eq!(
        vault.load_secure_configuration(&store, one).err(),
        Some(VaultError::ConfigurationNotFound)
    );
}

#[test]
fn change_password_reencrypts_the_directory() {
    let mut store = MemoryStore::new();
    let vault = StringVault::new("ivy", "old");
    let key = ObjectKey::new_with_form_tag("cfg".to_string());
    let config = map_of(&[("k", "v")]);
    vault.save_secure_configuration(&mut store, key.clone(), "Cfg".to_string(), &config).unwrap();
    assert_eq!(
        StringVault::change_password(&mut store, "ivy", "bad", "new"),
        Err(VaultError::WrongPassword)
    );
    assert_eq!(StringVault::change_password(&mut store, "ivy", "old", "new"), Ok(()));
    assert_eq!(StringVault::validate_password(&store, "ivy", "old"), Ok(false));
    let renewed = StringVault::new_and_validate(&store, "ivy", "new").unwrap();
    let loaded = renewed.load_secure_configuration(&store, key).unwrap();
    assert_eq!(sorted(&loaded), sorted(&config));
}

#[test]
fn new_and_create_starts_over() {
    let mut store = MemoryStore::new();
    let vault = StringVault::new("jack", "first");
    vault
        .add_configuration(&mut store, ObjectKey::new_with_form_tag("a".to_string()), "A".to_string())
        .unwrap();
    let fresh = StringVault::new_and_create(&mut store, "jack", "second").unwrap();
    assert_eq!(fresh.list_configurations(&store).unwrap().len(), 0);
    assert_eq!(StringVault::validate_password(&store, "jack", "first"), Ok(true));
}

#[test]
fn entry_without_name_lists_as_unknown() {
    let mut store = MemoryStore::new();
    directory_slot("kate", "pw").save(&mut store, br#"{"x":{}}"#).unwrap();
    let vault = StringVault::new_and_validate(&store, "kate", "pw").unwrap();
    let listed = vault.list_configurations(&store).unwrap();
    assert_eq!(sorted(&listed), vec![("x".to_string(), "Unknown".to_string())]);
}

#[test]
fn undecodable_directory_is_corrupt() {
    let mut store = MemoryStore::new();
    directory_slot("liam", "pw").save(&mut store, b"not json").unwrap();
    assert!(matches!(
        StringVault::new_and_validate(&store, "liam", "pw"),
        Err(VaultError::CorruptDirectory)
    ));
    assert_eq!(StringVault::validate_password(&store, "liam", "pw"), Err(VaultError::CorruptDirectory));
    assert!(matches!(
        StringVault::new_and_validate(&store, "liam", "other"),
        Err(VaultError::WrongPassword)
    ));
}

#[test]
fn item_errors_are_told_apart() {
    let mut store = MemoryStore::new();
    directory_slot("mia", "pw")
        .save(&mut store, br#"{"x":{"NAME":"X","PASSWD":"pp"},"y":{"NAME":"Y","PASSWD":"qq"}}"#)
        .unwrap();
    let vault = StringVault::new_and_validate(&store, "mia", "pw").unwrap();
    let x = ObjectKey::new_with_form_tag("x".to_string());
    let y = ObjectKey::new_with_form_tag("y".to_string());
    assert_eq!(vault.load_secure_configuration(&store, x.clone()).err(), Some(VaultError::NoData));
    let x_slot = SecureStorage::new(x.clone(), stringvault::crypto::derive_crypto_key("pp", "x"));
    x_slot.save(&mut store, b"[1, 2]").unwrap();
    assert_eq!(vault.load_secure_configuration(&store, x.clone()).err(), Some(VaultError::CorruptItem));
    x_slot.save(&mut store, br#"{"a":"b"}"#).unwrap();
    let loaded = vault.load_secure_configuration(&store, x).unwrap();
    assert_eq!(sorted(&loaded), vec![("a".to_string(), "b".to_string())]);
    let y_wrong = SecureStorage::new(y.clone(), stringvault::crypto::derive_crypto_key("pp", "y"));
    y_wrong.save(&mut store, br#"{"a":"b"}"#).unwrap();
    assert_eq!(vault.load_secure_configuration(&store, y).err(), Some(VaultError::DecryptFailed));
}

#[test]
fn error_messages_name_the_problem() {
    assert_eq!(VaultError::WrongPassword.message(), "incorrect password");
    assert_eq!(VaultError::ConfigurationNotFound.message(), "configuration not found");
}

#[test]
fn directory_address_is_refused_for_items() {
    let mut store = MemoryStore::new();
    let vault = StringVault::new("nina", "pw");
    let reserved = ObjectKey { tag: hash_username("nina"), id: "self".to_string() };
    assert_eq!(
        vault.save_secure_configuration(&mut store, reserved.clone(), "X".to_string(), &StringMap::new()),
        Err(VaultError::ReservedAddress)
    );
    assert_eq!(
        vault.save_configuration_with(
            &mut store,
            reserved,
            "X".to_string(),
            &StringMap::new(),
            "pp".to_string(),
            vec![1; 12],
            vec![2; 12],
        ),
        Err(VaultError::ReservedAddress)
    );
    assert_eq!(store.entries().len(), 0);
}

#[test]
fn save_with_given_passphrase_and_nonces_is_exact() {
    let mut store = MemoryStore::new();
    let vault = StringVault::new("omar", "pw");
    let key = ObjectKey::new_with_form_tag("s3-prod".to_string());
    let config = map_of(&[("access_key", "AK")]);
    vault
        .save_configuration_with(
            &mut store,
            key.clone(),
            "Prod".to_string(),
            &config,
            "pp".to_string(),
            vec![1; 12],
            vec![2; 12],
        )
        .unwrap();
    let item_blob = store.load(&key).unwrap();
    assert_eq!(&item_blob[..12], &[1u8; 12]);
    let dir_key = ObjectKey { tag: hash_username("omar"), id: "self".to_string() };
    assert_eq!(&store.load(&dir_key).unwrap()[..12], &[2u8; 12]);
    let item_slot = SecureStorage::new(key.clone(), stringvault::crypto::derive_crypto_key("pp", "s3-prod"));
    assert_eq!(item_slot.load(&store), Ok(br#"{"access_key":"AK"}"#.to_vec()));
    let loaded = vault.load_secure_configuration(&store, key.clone()).unwrap();
    assert_eq!(sorted(&loaded), sorted(&config));
    let mut again = MemoryStore::new();
    vault
        .save_configuration_with(
            &mut again,
            key.clone(),
            "Prod".to_string(),
            &config,
            "pp".to_string(),
            vec![1; 12],
            vec![2; 12],
        )
        .unwrap();
    assert_eq!(again.load(&key), store.load(&key));
    assert_eq!(again.load(&dir_key), store.load(&dir_key));
}

#[test]
fn save_with_wrong_password_writes_nothing() {
    let mut store = MemoryStore::new();
    StringVault::new("pia", "right")
        .add_configuration(&mut store, ObjectKey::new_with_form_tag("a".to_string()), "A".to_string())
        .unwrap();
    let before = store.entries().len();
    let result = StringVault::new("pia", "wrong").save_configuration_with(
        &mut store,
        ObjectKey::new_with_form_tag("b".to_string()),
        "B".to_string(),
        &StringMap::new(),
        "pp".to_string(),
        vec![1; 12],
        vec![2; 12],
    );
    assert_eq!(result, Err(VaultError::WrongPassword));
    assert_eq!(store.entries().len(), before);
}

#[test]
fn saving_twice_keeps_the_second_payload() {
    let mut store = MemoryStore::new();
    let vault = StringVault::new("quinn", "pw");
    let key = ObjectKey::new_with_form_tag("cfg".to_string());
    vault.save_secure_configuration(&mut store, key.clone(), "One".to_string(), &map_of(&[("v", "1")])).unwrap();
    vault.save_secure_configuration(&mut store, key.clone(), "Two".to_string(), &map_of(&[("v", "2")])).unwrap();
    let loaded = vault.load_secure_configuration(&store, key).unwrap();
    assert_eq!(sorted(&loaded), vec![("v".to_string(), "2".to_string())]);
    let listed = vault.list_configurations(&store).unwrap();
    assert_eq!(sorted(&listed), vec![("cfg".to_string(), "Two".to_string())]);
}
