//! What holds across vault operations: proved from the operations' contracts.
use crate::crypto::{item_key, master_key, partition_of};
use crate::directory::{parse_directory_json, DirectoryView, NAME_FIELD, PASSPHRASE_FIELD};
use crate::error::VaultError;
use crate::secure_storage::{open_blob, sealed_write, slot_load};
use crate::storage::StoreView;
use crate::string_map::{parse_string_map_json, string_map_json};
use crate::vault::{
    configuration_saved, directory_address, directory_state, directory_written, display_name,
    item_state, list_state, named_entry, names_of, saved_entry,
};
use vstd::prelude::*;

verus! {

/// A directory that was written reads back as written.
pub proof fn lemma_written_directory_reads_back(
    before: StoreView,
    after: StoreView,
    partition: Seq<char>,
    key: Seq<u8>,
    d: DirectoryView,
)
    requires
        directory_written(before, after, partition, key, d),
    ensures
        directory_state(after, partition, key) == Ok::<DirectoryView, VaultError>(d),
{
    let text = choose|text: Seq<u8>|
        #[trigger] parse_directory_json(text) == Some(d) && sealed_write(
            before,
            after,
            directory_address(partition),
            key,
            text,
        );
    let blob = choose|blob: Seq<u8>|
        after == before.insert(directory_address(partition), blob) && #[trigger] open_blob(key, blob)
            == Some(text);
    assert(after[directory_address(partition)] == blob);
}

/// Round trip: a configuration saved through a vault loads back equal to what was
/// saved, through that vault or any vault opened later with the same username and
/// password.
pub proof fn lemma_save_then_load(
    before: StoreView,
    after: StoreView,
    username: Seq<char>,
    password: Seq<char>,
    addr: (Seq<char>, Seq<char>),
    name: Seq<char>,
    config: Map<Seq<char>, Seq<char>>,
)
    requires
        directory_state(before, partition_of(username), master_key(username, password)) is Ok,
        configuration_saved(
            before,
            after,
            partition_of(username),
            master_key(username, password),
            directory_state(before, partition_of(username), master_key(username, password))->Ok_0,
            addr,
            name,
            config,
        ),
    ensures
        item_state(after, partition_of(username), master_key(username, password), addr) == Ok::<
            Map<Seq<char>, Seq<char>>,
            VaultError,
        >(config),
{
    let partition = partition_of(username);
    let key = master_key(username, password);
    let d = directory_state(before, partition, key)->Ok_0;
    let (passphrase, mid) = choose|passphrase: Seq<char>, mid: StoreView|
        #[trigger] sealed_write(before, mid, addr, item_key(passphrase, addr.1), string_map_json(config))
            && parse_string_map_json(string_map_json(config)) == Some(config) && directory_written(
            mid,
            after,
            partition,
            key,
            d.insert(addr.1, saved_entry(name, passphrase)),
        );
    let d2 = d.insert(addr.1, saved_entry(name, passphrase));
    lemma_written_directory_reads_back(mid, after, partition, key, d2);
    assert(d2[addr.1][PASSPHRASE_FIELD@] == passphrase);
    let item_blob = choose|blob: Seq<u8>|
        mid == before.insert(addr, blob) && #[trigger] open_blob(item_key(passphrase, addr.1), blob)
            == Some(string_map_json(config));
    let text = choose|text: Seq<u8>|
        #[trigger] parse_directory_json(text) == Some(d2) && sealed_write(
            mid,
            after,
            directory_address(partition),
            key,
            text,
        );
    let dir_blob = choose|blob: Seq<u8>|
        after == mid.insert(directory_address(partition), blob) && #[trigger] open_blob(key, blob)
            == Some(text);
    assert(after[addr] == item_blob);
    assert(slot_load(after, addr, item_key(passphrase, addr.1)) == Ok::<Seq<u8>, crate::error::SlotError>(
        string_map_json(config),
    ));
}

/// A directory that does not authenticate under the key of the supplied password
/// gives `WrongPassword`; `CorruptDirectory` arises only from a directory that does
/// authenticate.
pub proof fn lemma_wrong_password(store: StoreView, username: Seq<char>, password: Seq<char>)
    ensures
        ({
            let addr = directory_address(partition_of(username));
            store.contains_key(addr) && open_blob(master_key(username, password), store[addr]) is None
                ==> directory_state(store, partition_of(username), master_key(username, password))
                == Err::<DirectoryView, VaultError>(VaultError::WrongPassword)
        }),
        directory_state(store, partition_of(username), master_key(username, password)) == Err::<
            DirectoryView,
            VaultError,
        >(VaultError::CorruptDirectory) ==> open_blob(
            master_key(username, password),
            store[directory_address(partition_of(username))],
        ) is Some,
{
}

/// First use: with nothing stored for the user, the vault opens empty and lists
/// no configurations.
pub proof fn lemma_first_use(store: StoreView, username: Seq<char>, password: Seq<char>)
    requires
        !store.contains_key(directory_address(partition_of(username))),
    ensures
        directory_state(store, partition_of(username), master_key(username, password)) == Ok::<
            DirectoryView,
            VaultError,
        >(DirectoryView::empty()),
        list_state(store, partition_of(username), master_key(username, password)) == Ok::<
            Map<Seq<char>, Seq<char>>,
            VaultError,
        >(Map::empty()),
{
    assert(names_of(DirectoryView::empty()) =~= Map::<Seq<char>, Seq<char>>::empty());
}

/// Isolation: writing one user's directory leaves what another user's vault finds
/// unchanged, whenever their partitions differ.
pub proof fn lemma_partitions_isolated(
    before: StoreView,
    after: StoreView,
    writer: Seq<char>,
    writer_key: Seq<u8>,
    d: DirectoryView,
    reader: Seq<char>,
    reader_password: Seq<char>,
)
    requires
        directory_written(before, after, partition_of(writer), writer_key, d),
        partition_of(writer) != partition_of(reader),
    ensures
        directory_state(after, partition_of(reader), master_key(reader, reader_password))
            == directory_state(before, partition_of(reader), master_key(reader, reader_password)),
{
    let text = choose|text: Seq<u8>|
        #[trigger] parse_directory_json(text) == Some(d) && sealed_write(
            before,
            after,
            directory_address(partition_of(writer)),
            writer_key,
            text,
        );
    let blob = choose|blob: Seq<u8>|
        after == before.insert(directory_address(partition_of(writer)), blob) && #[trigger] open_blob(
            writer_key,
            blob,
        ) == Some(text);
    let addr = directory_address(partition_of(reader));
    assert(after.contains_key(addr) == before.contains_key(addr));
    if before.contains_key(addr) {
        assert(after[addr] == before[addr]);
    }
}

/// Reset erases: once the user's directory is deleted, the vault opens empty with
/// any password and lists no configurations, whatever payloads remain stored.
pub proof fn lemma_reset_erases(before: StoreView, username: Seq<char>, password: Seq<char>)
    ensures
        directory_state(
            before.remove(directory_address(partition_of(username))),
            partition_of(username),
            master_key(username, password),
        ) == Ok::<DirectoryView, VaultError>(DirectoryView::empty()),
        list_state(
            before.remove(directory_address(partition_of(username))),
            partition_of(username),
            master_key(username, password),
        ) == Ok::<Map<Seq<char>, Seq<char>>, VaultError>(Map::empty()),
{
    lemma_first_use(before.remove(directory_address(partition_of(username))), username, password);
}

/// Deleting an entry leaves every other entry as it was, and the deleted id is then
/// absent, so deleting it again reports `ConfigurationNotFound`.
pub proof fn lemma_delete_keeps_others(
    before: StoreView,
    after: StoreView,
    username: Seq<char>,
    password: Seq<char>,
    id: Seq<char>,
)
    requires
        directory_state(before, partition_of(username), master_key(username, password)) is Ok,
        directory_written(
            before,
            after,
            partition_of(username),
            master_key(username, password),
            directory_state(before, partition_of(username), master_key(username, password))->Ok_0.remove(id),
        ),
    ensures
        ({
            let d = directory_state(before, partition_of(username), master_key(username, password))->Ok_0;
            &&& directory_state(after, partition_of(username), master_key(username, password)) is Ok
            &&& !directory_state(after, partition_of(username), master_key(username, password))->Ok_0.contains_key(id)
            &&& forall|k: Seq<char>|
                k != id ==> (#[trigger] directory_state(
                    after,
                    partition_of(username),
                    master_key(username, password),
                )->Ok_0.contains_key(k) == d.contains_key(k)) && (d.contains_key(k) ==> directory_state(
                    after,
                    partition_of(username),
                    master_key(username, password),
                )->Ok_0[k] == d[k])
        }),
{
    let d = directory_state(before, partition_of(username), master_key(username, password))->Ok_0;
    lemma_written_directory_reads_back(
        before,
        after,
        partition_of(username),
        master_key(username, password),
        d.remove(id),
    );
}

/// A name-only entry: after naming an id that has no saved content, listing shows
/// the name and loading reports `ConfigurationNotFound`.
pub proof fn lemma_named_entry_not_loadable(
    before: StoreView,
    after: StoreView,
    username: Seq<char>,
    password: Seq<char>,
    addr: (Seq<char>, Seq<char>),
    name: Seq<char>,
)
    requires
        directory_state(before, partition_of(username), master_key(username, password)) is Ok,
        ({
            let d = directory_state(before, partition_of(username), master_key(username, password))->Ok_0;
            &&& !(d.contains_key(addr.1) && d[addr.1].contains_key(PASSPHRASE_FIELD@))
            &&& directory_written(
                before,
                after,
                partition_of(username),
                master_key(username, password),
                d.insert(addr.1, named_entry(d, addr.1, name)),
            )
        }),
    ensures
        list_state(after, partition_of(username), master_key(username, password)) is Ok,
        list_state(after, partition_of(username), master_key(username, password))->Ok_0.contains_key(addr.1),
        list_state(after, partition_of(username), master_key(username, password))->Ok_0[addr.1] == name,
        item_state(after, partition_of(username), master_key(username, password), addr) == Err::<
            Map<Seq<char>, Seq<char>>,
            VaultError,
        >(VaultError::ConfigurationNotFound),
{
    let d = directory_state(before, partition_of(username), master_key(username, password))->Ok_0;
    let d2 = d.insert(addr.1, named_entry(d, addr.1, name));
    lemma_written_directory_reads_back(before, after, partition_of(username), master_key(username, password), d2);
    reveal_strlit("NAME");
    reveal_strlit("PASSWD");
    assert(NAME_FIELD@ != PASSPHRASE_FIELD@) by {
        assert(NAME_FIELD@.len() != PASSPHRASE_FIELD@.len());
    }
    assert(display_name(d2[addr.1]) == name);
    assert(!d2[addr.1].contains_key(PASSPHRASE_FIELD@));
}

/// Renaming keeps content: after a save and then a rename of the same id, the
/// configuration still loads equal to what was saved.
pub proof fn lemma_rename_keeps_payload(
    before: StoreView,
    saved: StoreView,
    renamed: StoreView,
    username: Seq<char>,
    password: Seq<char>,
    addr: (Seq<char>, Seq<char>),
    name: Seq<char>,
    config: Map<Seq<char>, Seq<char>>,
    new_name: Seq<char>,
)
    requires
        directory_state(before, partition_of(username), master_key(username, password)) is Ok,
        configuration_saved(
            before,
            saved,
            partition_of(username),
            master_key(username, password),
            directory_state(before, partition_of(username), master_key(username, password))->Ok_0,
            addr,
            name,
            config,
        ),
        ({
            let d1 = directory_state(saved, partition_of(username), master_key(username, password))->Ok_0;
            directory_written(
                saved,
                renamed,
                partition_of(username),
                master_key(username, password),
                d1.insert(addr.1, named_entry(d1, addr.1, new_name)),
            )
        }),
    ensures
        item_state(renamed, partition_of(username), master_key(username, password), addr) == Ok::<
            Map<Seq<char>, Seq<char>>,
            VaultError,
        >(config),
{
    let partition = partition_of(username);
    let key = master_key(username, password);
    let d = directory_state(before, partition, key)->Ok_0;
    let (passphrase, mid) = choose|passphrase: Seq<char>, mid: StoreView|
        #[trigger] sealed_write(before, mid, addr, item_key(passphrase, addr.1), string_map_json(config))
            && parse_string_map_json(string_map_json(config)) == Some(config) && directory_written(
            mid,
            saved,
            partition,
            key,
            d.insert(addr.1, saved_entry(name, passphrase)),
        );
    let d1 = d.insert(addr.1, saved_entry(name, passphrase));
    lemma_written_directory_reads_back(mid, saved, partition, key, d1);
    let d2 = d1.insert(addr.1, named_entry(d1, addr.1, new_name));
    lemma_written_directory_reads_back(saved, renamed, partition, key, d2);
    reveal_strlit("NAME");
    reveal_strlit("PASSWD");
    assert(NAME_FIELD@ != PASSPHRASE_FIELD@) by {
        assert(NAME_FIELD@.len() != PASSPHRASE_FIELD@.len());
    }
    assert(d2[addr.1].contains_key(PASSPHRASE_FIELD@));
    assert(d2[addr.1][PASSPHRASE_FIELD@] == passphrase);
    let item_blob = choose|blob: Seq<u8>|
        mid == before.insert(addr, blob) && #[trigger] open_blob(item_key(passphrase, addr.1), blob)
            == Some(string_map_json(config));
    let text1 = choose|text: Seq<u8>|
        #[trigger] parse_directory_json(text) == Some(d1) && sealed_write(
            mid,
            saved,
            directory_address(partition),
            key,
            text,
        );
    let blob1 = choose|blob: Seq<u8>|
        saved == mid.insert(directory_address(partition), blob) && #[trigger] open_blob(key, blob)
            == Some(text1);
    let text2 = choose|text: Seq<u8>|
        #[trigger] parse_directory_json(text) == Some(d2) && sealed_write(
            saved,
            renamed,
            directory_address(partition),
            key,
            text,
        );
    let blob2 = choose|blob: Seq<u8>|
        renamed == saved.insert(directory_address(partition), blob) && #[trigger] open_blob(key, blob)
            == Some(text2);
    assert(renamed[addr] == item_blob);
    assert(slot_load(renamed, addr, item_key(passphrase, addr.1)) == Ok::<Seq<u8>, crate::error::SlotError>(
        string_map_json(config),
    ));
}

} // verus!
