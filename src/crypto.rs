//! Key derivation, passphrase generation and authenticated encryption.
use aes_gcm::aead::{Aead, KeyInit};
use aes_gcm::{Aes256Gcm, Key, Nonce};
use vstd::prelude::*;
use vstd::utf8::encode_utf8;

verus! {

/// PBKDF2 iterations for every derived key.
pub const KDF_ROUNDS: u32 = 100000;

/// Length of an AES-256 key in bytes.
pub const KEY_LEN: usize = 32;

/// Length of an AES-GCM nonce in bytes.
pub const NONCE_LEN: usize = 12;

/// Random bytes behind each item passphrase (128 bits).
pub const PASSPHRASE_BYTES: usize = 16;

/// The longest plaintext that AES-GCM seals, in bytes.
pub const MAX_PLAINTEXT: u64 = 1u64 << 36;

/// Lower-case hexadecimal digits, by value.
pub open spec fn hex_digits() -> Seq<char> {
    seq!['0', '1', '2', '3', '4', '5', '6', '7', '8', '9', 'a', 'b', 'c', 'd', 'e', 'f']
}

/// Two lower-case hexadecimal digits per byte, high nibble first.
pub open spec fn hex_of(b: Seq<u8>) -> Seq<char>
    decreases b.len(),
{
    if b.len() == 0 {
        Seq::empty()
    } else {
        hex_of(b.drop_last()) + seq![
            hex_digits()[(b.last() / 16) as int],
            hex_digits()[(b.last() % 16) as int],
        ]
    }
}

/// The BLAKE3 digest of some bytes.
pub uninterp spec fn blake3_of(b: Seq<u8>) -> Seq<u8>;

/// PBKDF2 with HMAC-SHA-256: `len` bytes from password, salt and round count.
pub uninterp spec fn pbkdf2_sha256_of(password: Seq<u8>, salt: Seq<u8>, rounds: u32, len: usize) -> Seq<u8>;

/// What AES-256-GCM decryption gives for a key, a nonce and a ciphertext with its tag:
/// the plaintext, or nothing when the ciphertext does not authenticate.
pub uninterp spec fn aes_gcm_open_of(key: Seq<u8>, nonce: Seq<u8>, ciphertext: Seq<u8>) -> Option<Seq<u8>>;

/// The storage partition of a user: the hex BLAKE3 digest of the UTF-8 username.
pub open spec fn partition_of(username: Seq<char>) -> Seq<char> {
    hex_of(blake3_of(encode_utf8(username)))
}

/// The AES key that a password and a salt derive.
pub open spec fn crypto_key_of(password: Seq<char>, salt: Seq<char>) -> Seq<u8> {
    pbkdf2_sha256_of(encode_utf8(password), encode_utf8(salt), KDF_ROUNDS, KEY_LEN)
}

/// The master key of a vault: the password salted with the user's partition.
pub open spec fn master_key(username: Seq<char>, password: Seq<char>) -> Seq<u8> {
    crypto_key_of(password, partition_of(username))
}

/// The key of one configuration: its passphrase salted with its id.
pub open spec fn item_key(passphrase: Seq<char>, item_id: Seq<char>) -> Seq<u8> {
    crypto_key_of(passphrase, item_id)
}

/// Relies on `blake3::hash`: the 32-byte BLAKE3 digest of the input.
#[verifier::external_body]
fn blake3_digest(b: &[u8]) -> (r: Vec<u8>)
    ensures
        r@ == blake3_of(b@),
        r@.len() == 32,
{
    blake3::hash(b).as_bytes().to_vec()
}

/// Relies on `pbkdf2::pbkdf2_hmac` with `sha2::Sha256`: fills a buffer of `len` bytes
/// derived from the password, the salt and the round count.
#[verifier::external_body]
fn pbkdf2_sha256(password: &[u8], salt: &[u8], rounds: u32, len: usize) -> (r: Vec<u8>)
    ensures
        r@ == pbkdf2_sha256_of(password@, salt@, rounds, len),
        r@.len() == len,
{
    let mut out = vec![0u8; len];
    pbkdf2::pbkdf2_hmac::<sha2::Sha256>(password, salt, rounds, &mut out);
    out
}

/// Relies on `getrandom::getrandom`: fills `n` bytes from the operating system's
/// random source, or reports that none is available.
#[verifier::external_body]
pub(crate) fn random_bytes(n: usize) -> (r: Option<Vec<u8>>)
    ensures
        r matches Some(v) ==> v@.len() == n,
{
    let mut buf = vec![0u8; n];
    match getrandom::getrandom(&mut buf) {
        Ok(()) => Some(buf),
        Err(_) => None,
    }
}

/// Relies on `aes_gcm::Aes256Gcm::encrypt`: the ciphertext with its tag, which decrypts
/// under the same key and nonce to the plaintext; a plaintext over 2^36 bytes is refused.
#[verifier::external_body]
pub(crate) fn aes_gcm_seal(key: &[u8], nonce: &[u8], plaintext: &[u8]) -> (r: Option<Vec<u8>>)
    requires
        key@.len() == KEY_LEN,
        nonce@.len() == NONCE_LEN,
    ensures
        r is Some <==> plaintext@.len() <= MAX_PLAINTEXT,
        r matches Some(c) ==> aes_gcm_open_of(key@, nonce@, c@) == Some(plaintext@),
{
    let cipher = Aes256Gcm::new(Key::<Aes256Gcm>::from_slice(key));
    cipher.encrypt(Nonce::from_slice(nonce), plaintext).ok()
}

/// Relies on `aes_gcm::Aes256Gcm::decrypt`: the plaintext when the ciphertext
/// authenticates under the key and nonce, an error otherwise.
#[verifier::external_body]
pub(crate) fn aes_gcm_open(key: &[u8], nonce: &[u8], ciphertext: &[u8]) -> (r: Option<Vec<u8>>)
    requires
        key@.len() == KEY_LEN,
        nonce@.len() == NONCE_LEN,
    ensures
        match r {
            Some(p) => aes_gcm_open_of(key@, nonce@, ciphertext@) == Some(p@),
            None => aes_gcm_open_of(key@, nonce@, ciphertext@) is None,
        },
{
    let cipher = Aes256Gcm::new(Key::<Aes256Gcm>::from_slice(key));
    cipher.decrypt(Nonce::from_slice(nonce), ciphertext).ok()
}

/// One hexadecimal digit as a string.
fn hex_digit(n: u8) -> (r: &'static str)
    requires
        n < 16,
    ensures
        r@ == seq![hex_digits()[n as int]],
{
    proof {
        reveal_strlit("0");
        reveal_strlit("1");
        reveal_strlit("2");
        reveal_strlit("3");
        reveal_strlit("4");
        reveal_strlit("5");
        reveal_strlit("6");
        reveal_strlit("7");
        reveal_strlit("8");
        reveal_strlit("9");
        reveal_strlit("a");
        reveal_strlit("b");
        reveal_strlit("c");
        reveal_strlit("d");
        reveal_strlit("e");
        reveal_strlit("f");
    }
    let r = match n {
        0 => "0",
        1 => "1",
        2 => "2",
        3 => "3",
        4 => "4",
        5 => "5",
        6 => "6",
        7 => "7",
        8 => "8",
        9 => "9",
        10 => "a",
        11 => "b",
        12 => "c",
        13 => "d",
        14 => "e",
        _ => "f",
    };
    assert(r@ =~= seq![hex_digits()[n as int]]);
    r
}

/// Lower-case hexadecimal text of some bytes.
pub fn to_hex(b: &[u8]) -> (r: String)
    ensures
        r@ == hex_of(b@),
{
    let mut s = String::new();
    let mut i: usize = 0;
    while i < b.len()
        invariant
            i <= b@.len(),
            s@ == hex_of(b@.subrange(0, i as int)),
        decreases b@.len() - i,
    {
        let x = b[i];
        s.append(hex_digit(x / 16));
        s.append(hex_digit(x % 16));
        proof {
            let next = b@.subrange(0, i + 1);
            assert(next.drop_last() =~= b@.subrange(0, i as int));
            assert(next.last() == x);
        }
        i = i + 1;
    }
    assert(b@.subrange(0, b@.len() as int) =~= b@);
    s
}

/// The hex text of some bytes has two digits per byte.
pub proof fn lemma_hex_len(b: Seq<u8>)
    ensures
        hex_of(b).len() == 2 * b.len(),
    decreases b.len(),
{
    if b.len() > 0 {
        lemma_hex_len(b.drop_last());
    }
}

/// The storage partition of a user: a fixed-length, one-way digest of the username.
pub fn hash_username(username: &str) -> (r: String)
    ensures
        r@ == partition_of(username@),
        r@.len() == 64,
{
    let digest = blake3_digest(username.as_bytes());
    proof {
        lemma_hex_len(digest@);
    }
    to_hex(digest.as_slice())
}

/// Derives an AES key from a password and a salt (PBKDF2-HMAC-SHA-256).
pub fn derive_crypto_key(password: &str, salt: &str) -> (r: Vec<u8>)
    ensures
        r@ == crypto_key_of(password@, salt@),
        r@.len() == KEY_LEN,
{
    pbkdf2_sha256(password.as_bytes(), salt.as_bytes(), KDF_ROUNDS, KEY_LEN)
}

/// Derives the master key of a vault from the user's partition and password.
pub fn derive_key_from_password(hashed_username: &str, password: &str) -> (r: Vec<u8>)
    ensures
        r@ == crypto_key_of(password@, hashed_username@),
        r@.len() == KEY_LEN,
{
    derive_crypto_key(password, hashed_username)
}

/// A fresh passphrase: 128 random bits as 32 hex digits, or nothing when no
/// random source is available.
pub fn generate_password() -> (r: Option<String>)
    ensures
        r matches Some(p) ==> exists|b: Seq<u8>| b.len() == PASSPHRASE_BYTES && p@ == hex_of(b),
{
    match random_bytes(PASSPHRASE_BYTES) {
        Some(bytes) => Some(to_hex(bytes.as_slice())),
        None => None,
    }
}

} // verus!
