//! The vault: a master-key-protected directory of individually encrypted configurations.
//!
//! Every operation takes the byte store explicitly. Operations that change the
//! directory borrow the store mutably, so two of them can never interleave their
//! read-modify-write cycles on the same store.
use crate::crypto::{
    derive_crypto_key, derive_key_from_password, generate_password, hash_username, item_key,
    master_key, partition_of, random_bytes, MAX_PLAINTEXT, NONCE_LEN,
};
use crate::directory::{
    directory_from_json, directory_json, directory_to_json, parse_directory_json, Directory,
    DirectoryView, NAME_FIELD, PASSPHRASE_FIELD,
};
use crate::assoc::{keys_unique, pairs_map};
use crate::error::{SlotError, VaultError};
use crate::secure_storage::{
    lemma_sealed_with_nonce_is_sealed_write, sealed_with_nonce, sealed_write, slot_load, SecureStorage,
};
use crate::storage::{MemoryStore, ObjectKey, StoreView};
use crate::string_map::{
    parse_string_map_json, string_map_from_json, string_map_json, string_map_to_json, StringMap,
};
use vstd::prelude::*;

verus! {

/// Id of the directory object within a user's partition.
pub const SELF_ID: &'static str = "self";

/// Display name listed for an entry that has none.
pub const UNKNOWN_NAME: &'static str = "Unknown";

/// Where the directory of a partition is stored.
pub open spec fn directory_address(partition: Seq<char>) -> (Seq<char>, Seq<char>) {
    (partition, SELF_ID@)
}

/// The directory that a vault with this partition and master key finds in the store:
/// empty when nothing is stored, `WrongPassword` when the blob does not authenticate
/// under the key, `CorruptDirectory` when its plaintext is no directory.
pub open spec fn directory_state(store: StoreView, partition: Seq<char>, key: Seq<u8>) -> Result<
    DirectoryView,
    VaultError,
> {
    match slot_load(store, directory_address(partition), key) {
        Ok(p) => match parse_directory_json(p) {
            Some(d) => Ok(d),
            None => Err(VaultError::CorruptDirectory),
        },
        Err(SlotError::NoData) => Ok(DirectoryView::empty()),
        Err(_) => Err(VaultError::WrongPassword),
    }
}

/// The display name of an entry, or the placeholder when it has none.
pub open spec fn display_name(entry: Map<Seq<char>, Seq<char>>) -> Seq<char> {
    if entry.contains_key(NAME_FIELD@) {
        entry[NAME_FIELD@]
    } else {
        UNKNOWN_NAME@
    }
}

/// Item id to display name, for every entry of a directory.
pub open spec fn names_of(d: DirectoryView) -> Map<Seq<char>, Seq<char>> {
    Map::new(|id: Seq<char>| d.contains_key(id), |id: Seq<char>| display_name(d[id]))
}

/// What listing the configurations gives.
pub open spec fn list_state(store: StoreView, partition: Seq<char>, key: Seq<u8>) -> Result<
    Map<Seq<char>, Seq<char>>,
    VaultError,
> {
    match directory_state(store, partition, key) {
        Ok(d) => Ok(names_of(d)),
        Err(e) => Err(e),
    }
}

/// What loading the configuration stored at `addr` gives: its entry must exist and
/// carry a passphrase, whose item key must open the stored payload.
pub open spec fn item_state(
    store: StoreView,
    partition: Seq<char>,
    key: Seq<u8>,
    addr: (Seq<char>, Seq<char>),
) -> Result<Map<Seq<char>, Seq<char>>, VaultError> {
    match directory_state(store, partition, key) {
        Err(e) => Err(e),
        Ok(d) => if !d.contains_key(addr.1) || !d[addr.1].contains_key(PASSPHRASE_FIELD@) {
            Err(VaultError::ConfigurationNotFound)
        } else {
            match slot_load(store, addr, item_key(d[addr.1][PASSPHRASE_FIELD@], addr.1)) {
                Ok(p) => match parse_string_map_json(p) {
                    Some(m) => Ok(m),
                    None => Err(VaultError::CorruptItem),
                },
                Err(SlotError::NoData) => Err(VaultError::NoData),
                Err(_) => Err(VaultError::DecryptFailed),
            }
        },
    }
}

/// `after` is `before` with a new directory blob that opens under `key` to a text
/// that reads as `d`.
pub open spec fn directory_written(
    before: StoreView,
    after: StoreView,
    partition: Seq<char>,
    key: Seq<u8>,
    d: DirectoryView,
) -> bool {
    exists|text: Seq<u8>|
        #[trigger] parse_directory_json(text) == Some(d) && sealed_write(
            before,
            after,
            directory_address(partition),
            key,
            text,
        )
}

/// The entry of a configuration saved with a name and a passphrase.
pub open spec fn saved_entry(name: Seq<char>, passphrase: Seq<char>) -> Map<Seq<char>, Seq<char>> {
    Map::<Seq<char>, Seq<char>>::empty().insert(NAME_FIELD@, name).insert(PASSPHRASE_FIELD@, passphrase)
}

/// The entry of `id` after its display name is set, other fields kept.
pub open spec fn named_entry(d: DirectoryView, id: Seq<char>, name: Seq<char>) -> Map<Seq<char>, Seq<char>> {
    if d.contains_key(id) {
        d[id].insert(NAME_FIELD@, name)
    } else {
        Map::<Seq<char>, Seq<char>>::empty().insert(NAME_FIELD@, name)
    }
}

/// `after` is `before` with the payload `config` sealed at `addr` under the item key
/// of some passphrase, then the directory `d` written with `addr`'s id mapped to
/// `name` and that passphrase.
pub open spec fn configuration_saved(
    before: StoreView,
    after: StoreView,
    partition: Seq<char>,
    key: Seq<u8>,
    d: DirectoryView,
    addr: (Seq<char>, Seq<char>),
    name: Seq<char>,
    config: Map<Seq<char>, Seq<char>>,
) -> bool {
    addr != directory_address(partition) && exists|passphrase: Seq<char>, mid: StoreView|
        #[trigger] sealed_write(before, mid, addr, item_key(passphrase, addr.1), string_map_json(config))
            && parse_string_map_json(string_map_json(config)) == Some(config) && directory_written(
            mid,
            after,
            partition,
            key,
            d.insert(addr.1, saved_entry(name, passphrase)),
        )
}

/// Saving `config` under `id` cannot be sealed: the payload, or the directory with
/// the new entry (whatever its passphrase), is longer than the cipher accepts.
pub open spec fn too_large_to_save(
    d: DirectoryView,
    id: Seq<char>,
    name: Seq<char>,
    config: Map<Seq<char>, Seq<char>>,
) -> bool {
    string_map_json(config).len() > MAX_PLAINTEXT || exists|passphrase: Seq<char>|
        #[trigger] directory_json(d.insert(id, saved_entry(name, passphrase))).len() > MAX_PLAINTEXT
}

/// Saving `config` with this passphrase cannot be sealed: the payload, or the
/// directory with the new entry, is longer than the cipher accepts.
pub open spec fn too_large_with(
    d: DirectoryView,
    id: Seq<char>,
    name: Seq<char>,
    passphrase: Seq<char>,
    config: Map<Seq<char>, Seq<char>>,
) -> bool {
    string_map_json(config).len() > MAX_PLAINTEXT || directory_json(d.insert(id, saved_entry(name, passphrase))).len()
        > MAX_PLAINTEXT
}

/// `after` is `before` with the payload `config` sealed at `addr` under the item key
/// of `passphrase` and `item_nonce`, then the directory `d` with `addr`'s id mapped
/// to `name` and `passphrase` sealed at the directory address under `key` and
/// `directory_nonce`.
pub open spec fn configuration_saved_with(
    before: StoreView,
    after: StoreView,
    partition: Seq<char>,
    key: Seq<u8>,
    d: DirectoryView,
    addr: (Seq<char>, Seq<char>),
    name: Seq<char>,
    config: Map<Seq<char>, Seq<char>>,
    passphrase: Seq<char>,
    item_nonce: Seq<u8>,
    directory_nonce: Seq<u8>,
) -> bool {
    let mid = before.insert(addr, after[addr]);
    let d2 = d.insert(addr.1, saved_entry(name, passphrase));
    &&& sealed_with_nonce(before, mid, addr, item_key(passphrase, addr.1), item_nonce, string_map_json(config))
    &&& sealed_with_nonce(mid, after, directory_address(partition), key, directory_nonce, directory_json(d2))
    &&& parse_string_map_json(string_map_json(config)) == Some(config)
    &&& parse_directory_json(directory_json(d2)) == Some(d2)
}

/// The outcome of saving with a given passphrase and nonces into a readable
/// directory `d`: success exactly when both plaintexts fit, with the payload and
/// then the directory written; otherwise `PayloadTooLarge`, with nothing written
/// when the payload does not fit and only the payload written when the directory
/// does not.
pub open spec fn saved_or_too_large(
    r: Result<(), VaultError>,
    before: StoreView,
    after: StoreView,
    partition: Seq<char>,
    key: Seq<u8>,
    d: DirectoryView,
    addr: (Seq<char>, Seq<char>),
    name: Seq<char>,
    config: Map<Seq<char>, Seq<char>>,
    passphrase: Seq<char>,
    item_nonce: Seq<u8>,
    directory_nonce: Seq<u8>,
) -> bool {
    &&& (r is Ok <==> !too_large_with(d, addr.1, name, passphrase, config))
    &&& match r {
        Ok(()) => configuration_saved_with(
            before,
            after,
            partition,
            key,
            d,
            addr,
            name,
            config,
            passphrase,
            item_nonce,
            directory_nonce,
        ),
        Err(e) => e == VaultError::PayloadTooLarge && if string_map_json(config).len() > MAX_PLAINTEXT {
            after == before
        } else {
            sealed_with_nonce(before, after, addr, item_key(passphrase, addr.1), item_nonce, string_map_json(config))
        },
    }
}

/// `after` is `before`, or `before` with only an unreferenced payload sealed at `addr`.
pub open spec fn unchanged_or_orphan(
    before: StoreView,
    after: StoreView,
    addr: (Seq<char>, Seq<char>),
    config: Map<Seq<char>, Seq<char>>,
) -> bool {
    after == before || exists|passphrase: Seq<char>|
        #[trigger] sealed_write(before, after, addr, item_key(passphrase, addr.1), string_map_json(config))
}

/// A user's vault for one session: the partition and the directory slot under the
/// master key. Only its effects on the store persist.
pub struct StringVault {
    secure_storage: SecureStorage,
    username: String,
    hashed_username: String,
}

impl View for StringVault {
    type V = (Seq<char>, Seq<u8>);

    /// The partition and the master key.
    closed spec fn view(&self) -> (Seq<char>, Seq<u8>) {
        (self.hashed_username@, self.secure_storage@.1)
    }
}

impl StringVault {
    /// The directory slot sits at the partition's directory address.
    pub closed spec fn wf(&self) -> bool {
        &&& self.secure_storage.wf()
        &&& self.secure_storage@.0 == directory_address(self.hashed_username@)
        &&& self.hashed_username@ == partition_of(self.username@)
    }

    /// The user the vault belongs to.
    pub closed spec fn user(&self) -> Seq<char> {
        self.username@
    }

    /// Derives the master key and binds it to the directory slot; no I/O, no failure.
    pub fn new(username: &str, password: &str) -> (r: StringVault)
        ensures
            r.wf(),
            r.user() == username@,
            r@ == (partition_of(username@), master_key(username@, password@)),
    {
        let hashed_username = hash_username(username);
        let crypto_key = derive_key_from_password(hashed_username.as_str(), password);
        let object_key = ObjectKey { tag: hashed_username.clone(), id: SELF_ID.to_owned() };
        let secure_storage = SecureStorage::new(object_key, crypto_key);
        StringVault { secure_storage, username: username.to_owned(), hashed_username }
    }

    /// Whether a vault was ever created for `username`, whatever its password.
    pub fn user_exists(store: &MemoryStore, username: &str) -> (r: bool)
        requires
            store.wf(),
        ensures
            r == store@.contains_key(directory_address(partition_of(username@))),
    {
        let hashed_username = hash_username(username);
        let object_key = ObjectKey { tag: hashed_username, id: SELF_ID.to_owned() };
        SecureStorage::is_stored(store, &object_key)
    }

    fn load_directory(&self, store: &MemoryStore) -> (r: Result<Directory, VaultError>)
        requires
            self.wf(),
            store.wf(),
        ensures
            match r {
                Ok(d) => d.wf() && directory_state(store@, self@.0, self@.1) == Ok::<
                    DirectoryView,
                    VaultError,
                >(d@),
                Err(e) => directory_state(store@, self@.0, self@.1) == Err::<DirectoryView, VaultError>(e),
            },
    {
        match self.secure_storage.load(store) {
            Ok(plain) => match directory_from_json(plain.as_slice()) {
                Some(d) => Ok(d),
                None => Err(VaultError::CorruptDirectory),
            },
            Err(SlotError::NoData) => Ok(Directory::new()),
            Err(_) => Err(VaultError::WrongPassword),
        }
    }

    fn save_directory(&self, store: &mut MemoryStore, d: &Directory) -> (r: Result<(), VaultError>)
        requires
            self.wf(),
            old(store).wf(),
            d.wf(),
        ensures
            final(store).wf(),
            match r {
                Ok(()) => directory_written(old(store)@, final(store)@, self@.0, self@.1, d@),
                Err(e) => final(store)@ == old(store)@ && (e == VaultError::EntropyUnavailable || (e
                    == VaultError::PayloadTooLarge && directory_json(d@).len() > MAX_PLAINTEXT)),
            },
    {
        let text = directory_to_json(d);
        match self.secure_storage.save(store, text.as_slice()) {
            Ok(()) => {
                assert(parse_directory_json(text@) == Some(d@));
                Ok(())
            },
            Err(SlotError::PayloadTooLarge) => Err(VaultError::PayloadTooLarge),
            Err(_) => Err(VaultError::EntropyUnavailable),
        }
    }
}

impl StringVault {
    /// Builds the vault and loads its directory to check the password. No stored
    /// directory means a new, empty vault; a directory that does not authenticate
    /// gives `WrongPassword`; other errors pass through.
    pub fn new_and_validate(store: &MemoryStore, username: &str, password: &str) -> (r: Result<
        StringVault,
        VaultError,
    >)
        requires
            store.wf(),
        ensures
            match r {
                Ok(v) => v.wf() && v.user() == username@ && v@ == (
                    partition_of(username@),
                    master_key(username@, password@),
                ) && directory_state(
                    store@,
                    partition_of(username@),
                    master_key(username@, password@),
                ) is Ok,
                Err(e) => directory_state(
                    store@,
                    partition_of(username@),
                    master_key(username@, password@),
                ) == Err::<DirectoryView, VaultError>(e),
            },
    {
        let vault = StringVault::new(username, password);
        match vault.load_directory(store) {
            Ok(_) => Ok(vault),
            Err(e) => Err(e),
        }
    }

    /// `Ok(true)` when the password opens the user's vault (or none exists yet),
    /// `Ok(false)` when it does not, other errors passed through.
    pub fn validate_password(store: &MemoryStore, username: &str, password: &str) -> (r: Result<
        bool,
        VaultError,
    >)
        requires
            store.wf(),
        ensures
            r == match directory_state(
                store@,
                partition_of(username@),
                master_key(username@, password@),
            ) {
                Ok(_) => Ok::<bool, VaultError>(true),
                Err(VaultError::WrongPassword) => Ok::<bool, VaultError>(false),
                Err(e) => Err::<bool, VaultError>(e),
            },
    {
        match StringVault::new_and_validate(store, username, password) {
            Ok(_) => Ok(true),
            Err(VaultError::WrongPassword) => Ok(false),
            Err(e) => Err(e),
        }
    }

    /// Re-encrypts the user's directory under the key of `new_password`, after
    /// opening it with `old_password`. Payload keys do not depend on the password,
    /// so configurations stay readable.
    pub fn change_password(
        store: &mut MemoryStore,
        username: &str,
        old_password: &str,
        new_password: &str,
    ) -> (r: Result<(), VaultError>)
        requires
            old(store).wf(),
        ensures
            final(store).wf(),
            match directory_state(
                old(store)@,
                partition_of(username@),
                master_key(username@, old_password@),
            ) {
                Err(e) => r == Err::<(), VaultError>(e) && final(store)@ == old(store)@,
                Ok(d) => match r {
                    Ok(()) => directory_written(
                        old(store)@,
                        final(store)@,
                        partition_of(username@),
                        master_key(username@, new_password@),
                        d,
                    ),
                    Err(e) => final(store)@ == old(store)@ && (e == VaultError::EntropyUnavailable
                        || (e == VaultError::PayloadTooLarge && directory_json(d).len() > MAX_PLAINTEXT)),
                },
            },
    {
        let current = StringVault::new(username, old_password);
        let directory = match current.load_directory(store) {
            Ok(d) => d,
            Err(e) => return Err(e),
        };
        let renewed = StringVault::new(username, new_password);
        renewed.save_directory(store, &directory)
    }

    /// Deletes any existing directory of the user, then opens a fresh, empty vault.
    pub fn new_and_create(store: &mut MemoryStore, username: &str, password: &str) -> (r: Result<
        StringVault,
        VaultError,
    >)
        requires
            old(store).wf(),
        ensures
            final(store).wf(),
            final(store)@ == old(store)@.remove(directory_address(partition_of(username@))),
            match r {
                Ok(v) => v.wf() && v.user() == username@ && v@ == (
                    partition_of(username@),
                    master_key(username@, password@),
                ),
                Err(_) => false,
            },
    {
        match StringVault::reset_vault(store, username) {
            Ok(()) => {},
            Err(e) => return Err(e),
        }
        StringVault::new_and_validate(store, username, password)
    }

    /// Deletes the user's directory. The payloads it referenced stay in the store but
    /// can no longer be decrypted: their passphrases lived only in the directory.
    /// Succeeds when there was no directory.
    pub fn reset_vault(store: &mut MemoryStore, username: &str) -> (r: Result<(), VaultError>)
        requires
            old(store).wf(),
        ensures
            final(store).wf(),
            final(store)@ == old(store)@.remove(directory_address(partition_of(username@))),
            r is Ok,
    {
        let hashed_username = hash_username(username);
        let object_key = ObjectKey { tag: hashed_username, id: SELF_ID.to_owned() };
        SecureStorage::delete(store, &object_key);
        Ok(())
    }

    /// Item id to display name for every configuration; a missing name is listed as
    /// `"Unknown"`. A vault with no stored directory lists nothing.
    pub fn list_configurations(&self, store: &MemoryStore) -> (r: Result<StringMap, VaultError>)
        requires
            self.wf(),
            store.wf(),
        ensures
            match r {
                Ok(m) => m.wf() && list_state(store@, self@.0, self@.1) == Ok::<
                    Map<Seq<char>, Seq<char>>,
                    VaultError,
                >(m@),
                Err(e) => list_state(store@, self@.0, self@.1) == Err::<
                    Map<Seq<char>, Seq<char>>,
                    VaultError,
                >(e),
            },
    {
        let directory = match self.load_directory(store) {
            Ok(d) => d,
            Err(e) => return Err(e),
        };
        let entries = directory.entries();
        let mut names = StringMap::new();
        let mut i: usize = 0;
        while i < entries.len()
            invariant
                i <= entries@.len(),
                keys_unique(entries@),
                forall|j: int| 0 <= j < entries@.len() ==> (#[trigger] entries@[j]).1.wf(),
                names.wf(),
                names@ == names_of(pairs_map(entries@.subrange(0, i as int))),
            decreases entries@.len() - i,
        {
            let (id, fields) = &entries[i];
            let name = match fields.get(NAME_FIELD) {
                Some(n) => n.clone(),
                None => UNKNOWN_NAME.to_owned(),
            };
            proof {
                let prefix = entries@.subrange(0, i + 1);
                assert(prefix.drop_last() =~= entries@.subrange(0, i as int));
                lemma_names_of_insert(pairs_map(entries@.subrange(0, i as int)), id@, fields@);
            }
            names.insert(id.clone(), name);
            i = i + 1;
        }
        assert(entries@.subrange(0, entries@.len() as int) =~= entries@);
        Ok(names)
    }

    /// Seals `config` at `object_key` under a fresh passphrase, then records the
    /// id with `display_name` and that passphrase in the directory, replacing an
    /// earlier entry. The directory is read before anything is drawn or written, so
    /// a wrong password writes nothing; the payload is written before the directory
    /// refers to it. The directory's own address is refused.
    pub fn save_secure_configuration(
        &self,
        store: &mut MemoryStore,
        object_key: ObjectKey,
        display_name: String,
        config: &StringMap,
    ) -> (r: Result<(), VaultError>)
        requires
            self.wf(),
            old(store).wf(),
            config.wf(),
        ensures
            final(store).wf(),
            if object_key@ == directory_address(self@.0) {
                r == Err::<(), VaultError>(VaultError::ReservedAddress) && final(store)@ == old(store)@
            } else {
                match directory_state(old(store)@, self@.0, self@.1) {
                    Err(e) => r == Err::<(), VaultError>(e) && final(store)@ == old(store)@,
                    Ok(d) => match r {
                        Ok(()) => configuration_saved(
                            old(store)@,
                            final(store)@,
                            self@.0,
                            self@.1,
                            d,
                            object_key@,
                            display_name@,
                            config@,
                        ),
                        Err(VaultError::EntropyUnavailable) => final(store)@ == old(store)@,
                        Err(e) => e == VaultError::PayloadTooLarge && too_large_to_save(
                            d,
                            object_key@.1,
                            display_name@,
                            config@,
                        ) && unchanged_or_orphan(old(store)@, final(store)@, object_key@, config@),
                    },
                }
            },
    {
        if object_key.same_as(self.secure_storage.object_key()) {
            return Err(VaultError::ReservedAddress);
        }
        let directory = match self.load_directory(store) {
            Ok(d) => d,
            Err(e) => return Err(e),
        };
        let passphrase = match generate_password() {
            Some(p) => p,
            None => return Err(VaultError::EntropyUnavailable),
        };
        let item_nonce = match random_bytes(NONCE_LEN) {
            Some(n) => n,
            None => return Err(VaultError::EntropyUnavailable),
        };
        let directory_nonce = match random_bytes(NONCE_LEN) {
            Some(n) => n,
            None => return Err(VaultError::EntropyUnavailable),
        };
        let ghost d0 = directory@;
        let ghost before = store@;
        let ghost name_v = display_name@;
        let ghost passphrase_v = passphrase@;
        let ghost item_nonce_v = item_nonce@;
        let ghost directory_nonce_v = directory_nonce@;
        let r = self.save_into(
            store,
            directory,
            object_key,
            display_name,
            config,
            passphrase,
            item_nonce,
            directory_nonce,
        );
        proof {
            let after = store@;
            let mid = before.insert(object_key@, after[object_key@]);
            let d2 = d0.insert(object_key@.1, saved_entry(name_v, passphrase_v));
            if r is Ok {
                lemma_sealed_with_nonce_is_sealed_write(
                    before,
                    mid,
                    object_key@,
                    item_key(passphrase_v, object_key@.1),
                    item_nonce_v,
                    string_map_json(config@),
                );
                lemma_sealed_with_nonce_is_sealed_write(
                    mid,
                    after,
                    directory_address(self@.0),
                    self@.1,
                    directory_nonce_v,
                    directory_json(d2),
                );
                assert(directory_written(mid, after, self@.0, self@.1, d2));
                assert(sealed_write(
                    before,
                    mid,
                    object_key@,
                    item_key(passphrase_v, object_key@.1),
                    string_map_json(config@),
                ));
            } else {
                if string_map_json(config@).len() <= MAX_PLAINTEXT {
                    lemma_sealed_with_nonce_is_sealed_write(
                        before,
                        after,
                        object_key@,
                        item_key(passphrase_v, object_key@.1),
                        item_nonce_v,
                        string_map_json(config@),
                    );
                }
                assert(too_large_with(d0, object_key@.1, name_v, passphrase_v, config@));
                assert(too_large_to_save(d0, object_key@.1, name_v, config@));
            }
        }
        r
    }

    /// Saves `config` as `save_secure_configuration` does, with the passphrase and the
    /// two nonces (payload, directory) given instead of drawn. Succeeds exactly when
    /// the directory can be read, the address is not the directory's own and both
    /// plaintexts fit the cipher. Each nonce must be fresh for its key.
    pub fn save_configuration_with(
        &self,
        store: &mut MemoryStore,
        object_key: ObjectKey,
        display_name: String,
        config: &StringMap,
        passphrase: String,
        item_nonce: Vec<u8>,
        directory_nonce: Vec<u8>,
    ) -> (r: Result<(), VaultError>)
        requires
            self.wf(),
            old(store).wf(),
            config.wf(),
            item_nonce@.len() == NONCE_LEN,
            directory_nonce@.len() == NONCE_LEN,
        ensures
            final(store).wf(),
            if object_key@ == directory_address(self@.0) {
                r == Err::<(), VaultError>(VaultError::ReservedAddress) && final(store)@ == old(store)@
            } else {
                match directory_state(old(store)@, self@.0, self@.1) {
                    Err(e) => r == Err::<(), VaultError>(e) && final(store)@ == old(store)@,
                    Ok(d) => saved_or_too_large(
                        r,
                        old(store)@,
                        final(store)@,
                        self@.0,
                        self@.1,
                        d,
                        object_key@,
                        display_name@,
                        config@,
                        passphrase@,
                        item_nonce@,
                        directory_nonce@,
                    ),
                }
            },
    {
        if object_key.same_as(self.secure_storage.object_key()) {
            return Err(VaultError::ReservedAddress);
        }
        let directory = match self.load_directory(store) {
            Ok(d) => d,
            Err(e) => return Err(e),
        };
        self.save_into(
            store,
            directory,
            object_key,
            display_name,
            config,
            passphrase,
            item_nonce,
            directory_nonce,
        )
    }

    /// Writes the payload, then the directory with the new entry.
    fn save_into(
        &self,
        store: &mut MemoryStore,
        directory: Directory,
        object_key: ObjectKey,
        display_name: String,
        config: &StringMap,
        passphrase: String,
        item_nonce: Vec<u8>,
        directory_nonce: Vec<u8>,
    ) -> (r: Result<(), VaultError>)
        requires
            self.wf(),
            old(store).wf(),
            config.wf(),
            directory.wf(),
            object_key@ != directory_address(self@.0),
            item_nonce@.len() == NONCE_LEN,
            directory_nonce@.len() == NONCE_LEN,
        ensures
            final(store).wf(),
            saved_or_too_large(
                r,
                old(store)@,
                final(store)@,
                self@.0,
                self@.1,
                directory@,
                object_key@,
                display_name@,
                config@,
                passphrase@,
                item_nonce@,
                directory_nonce@,
            ),
    {
        let ghost d0 = directory@;
        let ghost before = store@;
        let ghost name_v = display_name@;
        let ghost passphrase_v = passphrase@;
        let ghost item_nonce_v = item_nonce@;
        let ghost directory_nonce_v = directory_nonce@;
        let ghost d2 = d0.insert(object_key@.1, saved_entry(name_v, passphrase_v));
        let id = object_key.id.clone();
        let key = derive_crypto_key(passphrase.as_str(), id.as_str());
        let text = string_map_to_json(config);
        let slot = SecureStorage::new(object_key, key);
        if slot.save_with_nonce(store, text.as_slice(), item_nonce).is_err() {
            return Err(VaultError::PayloadTooLarge);
        }
        let ghost mid = store@;
        let mut entry = StringMap::new();
        entry.insert(NAME_FIELD.to_owned(), display_name);
        entry.insert(PASSPHRASE_FIELD.to_owned(), passphrase);
        assert(entry@ =~= saved_entry(name_v, passphrase_v));
        let mut updated = directory;
        updated.insert(id, entry);
        assert(updated@ == d2);
        let dir_text = directory_to_json(&updated);
        if self.secure_storage.save_with_nonce(store, dir_text.as_slice(), directory_nonce).is_err() {
            return Err(VaultError::PayloadTooLarge);
        }
        proof {
            let after = store@;
            assert(after[object_key@] == mid[object_key@]);
            assert(mid =~= before.insert(object_key@, after[object_key@]));
        }
        Ok(())
    }

    /// The configuration saved at `object_key`. `ConfigurationNotFound` when the
    /// directory has no entry for its id, or an entry with a name only.
    pub fn load_secure_configuration(&self, store: &MemoryStore, object_key: ObjectKey) -> (r: Result<
        StringMap,
        VaultError,
    >)
        requires
            self.wf(),
            store.wf(),
        ensures
            match r {
                Ok(m) => m.wf() && item_state(store@, self@.0, self@.1, object_key@) == Ok::<
                    Map<Seq<char>, Seq<char>>,
                    VaultError,
                >(m@),
                Err(e) => item_state(store@, self@.0, self@.1, object_key@) == Err::<
                    Map<Seq<char>, Seq<char>>,
                    VaultError,
                >(e),
            },
    {
        let directory = match self.load_directory(store) {
            Ok(d) => d,
            Err(e) => return Err(e),
        };
        let entry = match directory.get(object_key.id.as_str()) {
            Some(e) => e,
            None => return Err(VaultError::ConfigurationNotFound),
        };
        let passphrase = match entry.get(PASSPHRASE_FIELD) {
            Some(p) => p,
            None => return Err(VaultError::ConfigurationNotFound),
        };
        let key = derive_crypto_key(passphrase.as_str(), object_key.id.as_str());
        let slot = SecureStorage::new(object_key, key);
        match slot.load(store) {
            Ok(text) => match string_map_from_json(text.as_slice()) {
                Some(m) => Ok(m),
                None => Err(VaultError::CorruptItem),
            },
            Err(SlotError::NoData) => Err(VaultError::NoData),
            Err(_) => Err(VaultError::DecryptFailed),
        }
    }

    /// Sets the display name of `object_key`'s entry, keeping its passphrase if it
    /// has one; creates a name-only entry otherwise.
    pub fn add_configuration(&self, store: &mut MemoryStore, object_key: ObjectKey, name: String) -> (r:
        Result<(), VaultError>)
        requires
            self.wf(),
            old(store).wf(),
        ensures
            final(store).wf(),
            match directory_state(old(store)@, self@.0, self@.1) {
                Err(e) => r == Err::<(), VaultError>(e) && final(store)@ == old(store)@,
                Ok(d) => match r {
                    Ok(()) => directory_written(
                        old(store)@,
                        final(store)@,
                        self@.0,
                        self@.1,
                        d.insert(object_key@.1, named_entry(d, object_key@.1, name@)),
                    ),
                    Err(e) => final(store)@ == old(store)@ && (e == VaultError::EntropyUnavailable
                        || (e == VaultError::PayloadTooLarge && directory_json(
                        d.insert(object_key@.1, named_entry(d, object_key@.1, name@)),
                    ).len() > MAX_PLAINTEXT)),
                },
            },
    {
        let mut directory = match self.load_directory(store) {
            Ok(d) => d,
            Err(e) => return Err(e),
        };
        let ghost d0 = directory@;
        let mut entry = match directory.remove(object_key.id.as_str()) {
            Some(e) => e,
            None => StringMap::new(),
        };
        entry.insert(NAME_FIELD.to_owned(), name);
        assert(entry@ =~= named_entry(d0, object_key@.1, name@));
        directory.insert(object_key.id, entry);
        assert(directory@ =~= d0.insert(object_key@.1, named_entry(d0, object_key@.1, name@)));
        self.save_directory(store, &directory)
    }

    /// Removes the entry of `object_key` from the directory; `ConfigurationNotFound`
    /// when there is none. The payload blob is left in the store, unreferenced.
    pub fn delete_configuration(&self, store: &mut MemoryStore, object_key: ObjectKey) -> (r: Result<
        (),
        VaultError,
    >)
        requires
            self.wf(),
            old(store).wf(),
        ensures
            final(store).wf(),
            match directory_state(old(store)@, self@.0, self@.1) {
                Err(e) => r == Err::<(), VaultError>(e) && final(store)@ == old(store)@,
                Ok(d) => if !d.contains_key(object_key@.1) {
                    r == Err::<(), VaultError>(VaultError::ConfigurationNotFound) && final(store)@
                        == old(store)@
                } else {
                    match r {
                        Ok(()) => directory_written(
                            old(store)@,
                            final(store)@,
                            self@.0,
                            self@.1,
                            d.remove(object_key@.1),
                        ),
                        Err(e) => final(store)@ == old(store)@ && (e
                            == VaultError::EntropyUnavailable || (e == VaultError::PayloadTooLarge
                            && directory_json(d.remove(object_key@.1)).len() > MAX_PLAINTEXT)),
                    }
                },
            },
    {
        let mut directory = match self.load_directory(store) {
            Ok(d) => d,
            Err(e) => return Err(e),
        };
        if directory.remove(object_key.id.as_str()).is_none() {
            return Err(VaultError::ConfigurationNotFound);
        }
        self.save_directory(store, &directory)
    }
}

/// Listing a directory with one more entry lists one more name.
proof fn lemma_names_of_insert(d: DirectoryView, id: Seq<char>, entry: Map<Seq<char>, Seq<char>>)
    ensures
        names_of(d.insert(id, entry)) == names_of(d).insert(id, display_name(entry)),
{
    assert(names_of(d.insert(id, entry)) =~= names_of(d).insert(id, display_name(entry)));
}

} // verus!
