//! One encrypted blob at one address, bound to one key.
use crate::crypto::{aes_gcm_open, aes_gcm_open_of, aes_gcm_seal, random_bytes, KEY_LEN, MAX_PLAINTEXT, NONCE_LEN};
use crate::error::SlotError;
use crate::storage::{MemoryStore, ObjectKey, StoreView};
use vstd::prelude::*;

verus! {

/// The plaintext of a stored blob (nonce followed by ciphertext) under a key, if it
/// authenticates.
pub open spec fn open_blob(key: Seq<u8>, blob: Seq<u8>) -> Option<Seq<u8>> {
    if blob.len() < NONCE_LEN {
        None
    } else {
        aes_gcm_open_of(key, blob.subrange(0, NONCE_LEN as int), blob.subrange(NONCE_LEN as int, blob.len() as int))
    }
}

/// What loading the slot at `addr` under `key` gives.
pub open spec fn slot_load(store: StoreView, addr: (Seq<char>, Seq<char>), key: Seq<u8>) -> Result<Seq<u8>, SlotError> {
    if !store.contains_key(addr) {
        Err(SlotError::NoData)
    } else {
        match open_blob(key, store[addr]) {
            Some(p) => Ok(p),
            None => Err(SlotError::DecryptFailed),
        }
    }
}

/// `after` is `before` with a blob at `addr` that opens under `key` to `plaintext`.
pub open spec fn sealed_write(
    before: StoreView,
    after: StoreView,
    addr: (Seq<char>, Seq<char>),
    key: Seq<u8>,
    plaintext: Seq<u8>,
) -> bool {
    exists|blob: Seq<u8>| after == before.insert(addr, blob) && #[trigger] open_blob(key, blob) == Some(plaintext)
}

/// `after` is `before` with a blob at `addr` that starts with `nonce` and opens under
/// `key` to `plaintext`.
pub open spec fn sealed_with_nonce(
    before: StoreView,
    after: StoreView,
    addr: (Seq<char>, Seq<char>),
    key: Seq<u8>,
    nonce: Seq<u8>,
    plaintext: Seq<u8>,
) -> bool {
    exists|blob: Seq<u8>|
        after == before.insert(addr, blob) && blob.len() >= NONCE_LEN && blob.subrange(0, NONCE_LEN as int)
            == nonce && #[trigger] open_blob(key, blob) == Some(plaintext)
}

/// A write with a given nonce is a sealed write.
pub proof fn lemma_sealed_with_nonce_is_sealed_write(
    before: StoreView,
    after: StoreView,
    addr: (Seq<char>, Seq<char>),
    key: Seq<u8>,
    nonce: Seq<u8>,
    plaintext: Seq<u8>,
)
    requires
        sealed_with_nonce(before, after, addr, key, nonce, plaintext),
    ensures
        sealed_write(before, after, addr, key, plaintext),
{
    let blob = choose|blob: Seq<u8>|
        after == before.insert(addr, blob) && blob.len() >= NONCE_LEN && blob.subrange(0, NONCE_LEN as int)
            == nonce && #[trigger] open_blob(key, blob) == Some(plaintext);
    assert(open_blob(key, blob) == Some(plaintext));
}

/// A slot: an address in the store and the key that seals what is stored there.
pub struct SecureStorage {
    object_key: ObjectKey,
    crypto_key: Vec<u8>,
}

impl View for SecureStorage {
    type V = ((Seq<char>, Seq<char>), Seq<u8>);

    closed spec fn view(&self) -> ((Seq<char>, Seq<char>), Seq<u8>) {
        (self.object_key@, self.crypto_key@)
    }
}

impl SecureStorage {
    /// The key has the cipher's length.
    pub closed spec fn wf(&self) -> bool {
        self.crypto_key@.len() == KEY_LEN
    }

    /// Binds `crypto_key` to the address `object_key`; no I/O.
    pub fn new(object_key: ObjectKey, crypto_key: Vec<u8>) -> (r: SecureStorage)
        requires
            crypto_key@.len() == KEY_LEN,
        ensures
            r.wf(),
            r@ == (object_key@, crypto_key@),
    {
        SecureStorage { object_key, crypto_key }
    }

    /// The slot's address.
    pub fn object_key(&self) -> (r: &ObjectKey)
        ensures
            r@ == self@.0,
    {
        &self.object_key
    }

    /// Whether anything is stored at `object_key`, whether or not it would decrypt.
    pub fn is_stored(store: &MemoryStore, object_key: &ObjectKey) -> (r: bool)
        requires
            store.wf(),
        ensures
            r == store@.contains_key(object_key@),
    {
        store.contains(object_key)
    }

    /// Encrypts `data` under a fresh random nonce and stores nonce and ciphertext at
    /// the slot's address, replacing what was there. On error the store is unchanged.
    pub fn save(&self, store: &mut MemoryStore, data: &[u8]) -> (r: Result<(), SlotError>)
        requires
            self.wf(),
            old(store).wf(),
        ensures
            final(store).wf(),
            match r {
                Ok(()) => sealed_write(old(store)@, final(store)@, self@.0, self@.1, data@),
                Err(e) => final(store)@ == old(store)@ && (e == SlotError::EntropyUnavailable || (
                e == SlotError::PayloadTooLarge && data@.len() > MAX_PLAINTEXT)),
            },
            data@.len() > MAX_PLAINTEXT ==> r is Err,
    {
        match random_bytes(NONCE_LEN) {
            Some(nonce) => {
                let ghost n = nonce@;
                let r = self.save_with_nonce(store, data, nonce);
                proof {
                    if r is Ok {
                        lemma_sealed_with_nonce_is_sealed_write(old(store)@, store@, self@.0, self@.1, n, data@);
                    }
                }
                r
            },
            None => Err(SlotError::EntropyUnavailable),
        }
    }

    /// Encrypts `data` under `nonce` and stores nonce and ciphertext at the slot's
    /// address. Fails, leaving the store unchanged, only when `data` is longer than
    /// the cipher accepts. A nonce must never be used twice with one key.
    pub fn save_with_nonce(&self, store: &mut MemoryStore, data: &[u8], nonce: Vec<u8>) -> (r: Result<
        (),
        SlotError,
    >)
        requires
            self.wf(),
            old(store).wf(),
            nonce@.len() == NONCE_LEN,
        ensures
            final(store).wf(),
            match r {
                Ok(()) => sealed_with_nonce(old(store)@, final(store)@, self@.0, self@.1, nonce@, data@),
                Err(e) => final(store)@ == old(store)@ && e == SlotError::PayloadTooLarge,
            },
            r is Ok <==> data@.len() <= MAX_PLAINTEXT,
    {
        let sealed = match aes_gcm_seal(self.crypto_key.as_slice(), nonce.as_slice(), data) {
            Some(c) => c,
            None => return Err(SlotError::PayloadTooLarge),
        };
        let mut blob = nonce;
        let ghost n = blob@;
        let mut i: usize = 0;
        while i < sealed.len()
            invariant
                n.len() == NONCE_LEN,
                i <= sealed@.len(),
                blob@ == n + sealed@.subrange(0, i as int),
            decreases sealed@.len() - i,
        {
            blob.push(sealed[i]);
            proof {
                assert(sealed@.subrange(0, i + 1) =~= sealed@.subrange(0, i as int).push(sealed@[i as int]));
            }
            i = i + 1;
        }
        proof {
            assert(sealed@.subrange(0, sealed@.len() as int) =~= sealed@);
            assert(blob@.subrange(0, NONCE_LEN as int) =~= n);
            assert(blob@.subrange(NONCE_LEN as int, blob@.len() as int) =~= sealed@);
            assert(open_blob(self@.1, blob@) == Some(data@));
        }
        let ghost b = blob@;
        store.save(self.object_key.clone(), blob);
        assert(b.subrange(0, NONCE_LEN as int) == n);
        Ok(())
    }

    /// Reads and decrypts the slot: `NoData` when nothing is stored, `DecryptFailed`
    /// when the blob does not authenticate under the slot's key.
    pub fn load(&self, store: &MemoryStore) -> (r: Result<Vec<u8>, SlotError>)
        requires
            self.wf(),
            store.wf(),
        ensures
            match r {
                Ok(p) => slot_load(store@, self@.0, self@.1) == Ok::<Seq<u8>, SlotError>(p@),
                Err(e) => slot_load(store@, self@.0, self@.1) == Err::<Seq<u8>, SlotError>(e),
            },
    {
        let blob = match store.load(&self.object_key) {
            Some(b) => b,
            None => return Err(SlotError::NoData),
        };
        if blob.len() < NONCE_LEN {
            return Err(SlotError::DecryptFailed);
        }
        let (nonce, ciphertext) = blob.as_slice().split_at(NONCE_LEN);
        match aes_gcm_open(self.crypto_key.as_slice(), nonce, ciphertext) {
            Some(p) => Ok(p),
            None => Err(SlotError::DecryptFailed),
        }
    }

    /// Removes whatever is stored at `object_key`; succeeds when nothing was there.
    pub fn delete(store: &mut MemoryStore, object_key: &ObjectKey)
        requires
            old(store).wf(),
        ensures
            final(store).wf(),
            final(store)@ == old(store)@.remove(object_key@),
    {
        store.delete(object_key)
    }
}

} // verus!
