//! Symmetric crypto for per-user blobs.
//!
//! - Key derivation: Argon2id (memory-hard KDF), through the `argon2` crate.
//! - Encryption: ChaCha20-Poly1305 (authenticated), through `chacha20poly1305`.
//!
//! A stored blob is `nonce(12) || ciphertext`, where the ciphertext already
//! carries the 16-byte Poly1305 tag. Every encryption draws a fresh random
//! nonce from the operating system's generator (`rand`). Keys are kept in
//! `zeroize` buffers, wiped from memory when dropped.
use chacha20poly1305::aead::{Aead, KeyInit};
use rand::RngCore;
use vstd::prelude::*;

use crate::text::{decimal, push_decimal, push_str};

verus! {

/// Bytes of the per-blob random nonce.
pub const NONCE_LEN: usize = 12;

/// Bytes of the Argon2id salt (for key derivation).
pub const SALT_LEN: usize = 16;

/// Bytes of the derived symmetric key (ChaCha20 = 256 bits).
pub const KEY_LEN: usize = 32;

/// Bytes of the Poly1305 tag that ends every ciphertext.
pub const TAG_LEN: usize = 16;

/// Argon2id memory cost of the encryption-key derivation, in KiB.
pub const KDF_M_COST: u32 = 32768;

/// Argon2id iteration count of the encryption-key derivation.
pub const KDF_T_COST: u32 = 3;

/// Errors of key derivation, encryption and decryption.
#[derive(Debug)]
pub enum CryptoError {
    /// Decryption failed (wrong key or corrupted data). Encryption reports
    /// its own (length) failure with this variant too.
    Decrypt,
    /// Key derivation failed; the text is the KDF's own message.
    Kdf(String),
    /// The blob is shorter than a nonce.
    NonceLen { expected: usize, actual: usize },
}

/// The message of a crypto error.
pub open spec fn crypto_error_text(e: CryptoError) -> Seq<char> {
    match e {
        CryptoError::Decrypt => "Decryption failed (wrong key or corrupted data)"@,
        CryptoError::Kdf(m) => "Key derivation failed: "@ + m@,
        CryptoError::NonceLen { expected, actual } => "Invalid nonce length: expected "@ + decimal(expected as nat)
            + ", got "@ + decimal(actual as nat),
    }
}

impl CryptoError {
    /// The error's message.
    pub fn message(&self) -> (s: String)
        ensures
            s@ == crypto_error_text(*self),
    {
        match self {
            CryptoError::Decrypt => String::from_str("Decryption failed (wrong key or corrupted data)"),
            CryptoError::Kdf(m) => {
                let mut s = String::from_str("Key derivation failed: ");
                push_str(&mut s, m.as_str());
                s
            },
            CryptoError::NonceLen { expected, actual } => {
                let mut s = String::from_str("Invalid nonce length: expected ");
                push_decimal(&mut s, *expected as u64);
                push_str(&mut s, ", got ");
                push_decimal(&mut s, *actual as u64);
                s
            },
        }
    }
}

// ---------------------------------------------------------------------------
// Names for what the outside primitives compute
// ---------------------------------------------------------------------------

/// The digest that Argon2id (version 0x13, one lane) produces for a password,
/// a salt, a memory cost, an iteration count and an output length.
pub uninterp spec fn argon2id_digest(
    password: Seq<u8>,
    salt: Seq<u8>,
    m_cost: u32,
    t_cost: u32,
    out_len: usize,
) -> Seq<u8>;

/// The ChaCha20-Poly1305 ciphertext (with its tag) of a plaintext under a key
/// and a nonce, with empty associated data.
pub uninterp spec fn chacha20poly1305_seal(key: Seq<u8>, nonce: Seq<u8>, plaintext: Seq<u8>) -> Seq<u8>;

/// The plaintext that ChaCha20-Poly1305 recovers from a ciphertext under a key
/// and a nonce, or `None` when the tag does not authenticate it.
pub uninterp spec fn chacha20poly1305_open(key: Seq<u8>, nonce: Seq<u8>, ciphertext: Seq<u8>) -> Option<Seq<u8>>;

/// The password and salt lengths that Argon2id accepts.
pub open spec fn argon2_accepts(password: Seq<u8>, salt: Seq<u8>) -> bool {
    &&& password.len() <= 0xFFFF_FFFF
    &&& 8 <= salt.len() <= 0xFFFF_FFFF
}

/// The plaintext lengths that ChaCha20-Poly1305 can encrypt: fewer than
/// 2^32 - 1 whole 64-byte blocks.
pub open spec fn seal_accepts(plaintext_len: int) -> bool {
    plaintext_len / 64 < 0xFFFF_FFFF
}

// ---------------------------------------------------------------------------
// Trusted items
// ---------------------------------------------------------------------------

/// Calls `argon2::Argon2::hash_password_into` with Argon2id, version 0x13 and
/// `argon2::Params::new(m_cost, t_cost, 1, None)`, into a buffer of `out_len`
/// bytes. Claimed, after the crate's source: the parameters are refused iff
/// `m_cost < 8` or `t_cost < 1`; hashing is refused iff the output length is
/// outside `4..=2^32-1`, the password is longer than `2^32-1` bytes or the
/// salt is shorter than 8 or longer than `2^32-1` bytes; otherwise the digest
/// has `out_len` bytes and is a function of the arguments. The error text
/// (the crate's `Display` of its error) is not stated.
#[verifier::external_body]
pub(crate) fn argon2id_hash(password: &[u8], salt: &[u8], m_cost: u32, t_cost: u32, out_len: usize) -> (r: Result<Vec<u8>, String>)
    ensures
        r is Ok <==> (8 <= m_cost && 1 <= t_cost && 4 <= out_len <= 0xFFFF_FFFF && argon2_accepts(password@, salt@)),
        r matches Ok(h) ==> h@ == argon2id_digest(password@, salt@, m_cost, t_cost, out_len) && h@.len() == out_len,
{
    let params = match argon2::Params::new(m_cost, t_cost, 1, None) {
        Ok(p) => p,
        Err(e) => return Err(e.to_string()),
    };
    let hasher = argon2::Argon2::new(argon2::Algorithm::Argon2id, argon2::Version::V0x13, params);
    let mut out = vec![0u8; out_len];
    match hasher.hash_password_into(password, salt, &mut out) {
        Ok(()) => Ok(out),
        Err(e) => Err(e.to_string()),
    }
}

/// Fills the buffer with bytes from `rand::rng()` (`RngCore::fill_bytes` on
/// the thread-local, OS-seeded generator). Only the length is stated: the
/// bytes are random.
#[verifier::external_body]
fn fill_random(buf: &mut Vec<u8>)
    ensures
        final(buf)@.len() == old(buf)@.len(),
{
    rand::rng().fill_bytes(buf.as_mut_slice());
}

/// Calls `chacha20poly1305::aead::Aead::encrypt` on a `ChaCha20Poly1305`
/// built from the key, with the nonce and no associated data. Claimed, after
/// the crate's source: it fails iff the plaintext has 2^32 - 1 or more
/// 64-byte blocks; otherwise the ciphertext is the plaintext's length plus
/// the 16-byte tag, a function of the arguments, and decrypting it with the
/// same key and nonce gives the plaintext back.
#[verifier::external_body]
fn aead_seal(key: &[u8], nonce: &[u8], plaintext: &[u8]) -> (r: Option<Vec<u8>>)
    requires
        key@.len() == KEY_LEN,
        nonce@.len() == NONCE_LEN,
    ensures
        r is Some <==> seal_accepts(plaintext@.len() as int),
        r matches Some(c) ==> {
            &&& c@ == chacha20poly1305_seal(key@, nonce@, plaintext@)
            &&& c@.len() == plaintext@.len() + TAG_LEN
            &&& chacha20poly1305_open(key@, nonce@, c@) == Some(plaintext@)
        },
{
    let cipher = chacha20poly1305::ChaCha20Poly1305::new(chacha20poly1305::Key::from_slice(key));
    cipher.encrypt(chacha20poly1305::Nonce::from_slice(nonce), plaintext).ok()
}

/// Calls `chacha20poly1305::aead::Aead::decrypt` on a `ChaCha20Poly1305`
/// built from the key, with the nonce and no associated data. Claimed: the
/// result is a function of the arguments, and a recovered plaintext is the
/// ciphertext's length less the 16-byte tag.
#[verifier::external_body]
fn aead_open(key: &[u8], nonce: &[u8], ciphertext: &[u8]) -> (r: Option<Vec<u8>>)
    requires
        key@.len() == KEY_LEN,
        nonce@.len() == NONCE_LEN,
    ensures
        match r {
            Some(p) => chacha20poly1305_open(key@, nonce@, ciphertext@) == Some(p@)
                && p@.len() + TAG_LEN == ciphertext@.len(),
            None => chacha20poly1305_open(key@, nonce@, ciphertext@) is None,
        },
{
    let cipher = chacha20poly1305::ChaCha20Poly1305::new(chacha20poly1305::Key::from_slice(key));
    cipher.decrypt(chacha20poly1305::Nonce::from_slice(nonce), ciphertext).ok()
}

// ---------------------------------------------------------------------------
// Keys
// ---------------------------------------------------------------------------

/// Bytes kept in a `zeroize::Zeroizing` buffer, which wipes them from
/// memory when it is dropped.
#[verifier::external_body]
#[derive(Debug)]
pub struct WipedBytes {
    bytes: zeroize::Zeroizing<Vec<u8>>,
}

/// The bytes a buffer holds.
pub uninterp spec fn held_bytes(b: WipedBytes) -> Seq<u8>;

/// `zeroize::Zeroizing::new`: the bytes, to be wiped when the buffer is
/// dropped. Claimed: it holds the bytes it was given.
#[verifier::external_body]
fn wiped_on_drop(bytes: Vec<u8>) -> (z: WipedBytes)
    ensures
        held_bytes(z) == bytes@,
{
    WipedBytes { bytes: zeroize::Zeroizing::new(bytes) }
}

/// The bytes of a `zeroize::Zeroizing` buffer (its `Deref`). Claimed: they
/// are the bytes it holds.
#[verifier::external_body]
fn held_slice(z: &WipedBytes) -> (b: &[u8])
    ensures
        b@ == held_bytes(*z),
{
    z.bytes.as_slice()
}

/// `Clone` of a `zeroize::Zeroizing` buffer. Claimed: the copy holds the
/// same bytes.
#[verifier::external_body]
fn held_clone(z: &WipedBytes) -> (c: WipedBytes)
    ensures
        held_bytes(c) == held_bytes(*z),
{
    WipedBytes { bytes: z.bytes.clone() }
}

/// A 32-byte symmetric key, wiped from memory when dropped.
#[derive(Debug)]
pub struct SecretKey {
    bytes: WipedBytes,
}

impl SecretKey {
    #[verifier::type_invariant]
    spec fn has_key_len(self) -> bool {
        held_bytes(self.bytes).len() == KEY_LEN
    }

    /// The key's bytes.
    pub fn as_bytes(&self) -> (b: &[u8])
        ensures
            b@ == self@,
            b@.len() == KEY_LEN,
    {
        proof {
            use_type_invariant(self);
        }
        held_slice(&self.bytes)
    }
}

impl View for SecretKey {
    type V = Seq<u8>;

    closed spec fn view(&self) -> Seq<u8> {
        held_bytes(self.bytes)
    }
}

impl Clone for SecretKey {
    fn clone(&self) -> (c: Self)
        ensures
            c@ == self@,
    {
        proof {
            use_type_invariant(self);
        }
        SecretKey { bytes: held_clone(&self.bytes) }
    }
}

/// The encryption key that a passphrase and a salt yield.
pub open spec fn kdf_key(passphrase: Seq<u8>, salt: Seq<u8>) -> Seq<u8> {
    argon2id_digest(passphrase, salt, KDF_M_COST, KDF_T_COST, KEY_LEN)
}

/// Derive a 32-byte key from a passphrase and a salt using Argon2id.
///
/// The same `(passphrase, salt)` pair always yields the same key, so the key
/// can be re-derived after a restart once the user re-enters the passphrase.
pub fn derive_key(passphrase: &[u8], salt: &[u8]) -> (r: Result<SecretKey, CryptoError>)
    ensures
        r is Ok <==> argon2_accepts(passphrase@, salt@),
        r matches Ok(k) ==> k@ == kdf_key(passphrase@, salt@) && k@.len() == KEY_LEN,
        r matches Err(e) ==> e is Kdf,
{
    match argon2id_hash(passphrase, salt, KDF_M_COST, KDF_T_COST, KEY_LEN) {
        Ok(bytes) => Ok(SecretKey { bytes: wiped_on_drop(bytes) }),
        Err(msg) => Err(CryptoError::Kdf(msg)),
    }
}

/// Generate `len` cryptographically secure random bytes.
pub fn random_bytes(len: usize) -> (r: Vec<u8>)
    ensures
        r@.len() == len,
{
    let mut buf: Vec<u8> = Vec::new();
    let mut i: usize = 0;
    while i < len
        invariant
            i <= len,
            buf@.len() == i,
        decreases len - i,
    {
        buf.push(0u8);
        i = i + 1;
    }
    fill_random(&mut buf);
    buf
}

// ---------------------------------------------------------------------------
// Blobs
// ---------------------------------------------------------------------------

/// The blob that encrypting a plaintext with a key under a given nonce yields.
pub open spec fn sealed_blob(key: Seq<u8>, nonce: Seq<u8>, plaintext: Seq<u8>) -> Seq<u8> {
    nonce + chacha20poly1305_seal(key, nonce, plaintext)
}

/// What decrypting a blob with a key gives: the nonce is the first 12 bytes,
/// the rest is the ciphertext.
pub open spec fn decrypt_outcome(key: Seq<u8>, blob: Seq<u8>) -> Result<Seq<u8>, CryptoError> {
    if blob.len() < NONCE_LEN {
        Err(CryptoError::NonceLen { expected: NONCE_LEN, actual: blob.len() as usize })
    } else {
        match chacha20poly1305_open(key, blob.take(NONCE_LEN as int), blob.skip(NONCE_LEN as int)) {
            Some(p) => Ok(p),
            None => Err(CryptoError::Decrypt),
        }
    }
}

/// A byte result seen through the views of its bytes.
pub open spec fn bytes_result(r: Result<Vec<u8>, CryptoError>) -> Result<Seq<u8>, CryptoError> {
    match r {
        Ok(v) => Ok(v@),
        Err(e) => Err(e),
    }
}

/// Concatenate two byte slices into a fresh vector.
fn concat_bytes(a: &[u8], b: &[u8]) -> (r: Vec<u8>)
    ensures
        r@ == a@ + b@,
{
    let mut out: Vec<u8> = Vec::new();
    let mut i: usize = 0;
    while i < a.len()
        invariant
            i <= a@.len(),
            out@ == a@.take(i as int),
        decreases a@.len() - i,
    {
        out.push(a[i]);
        i = i + 1;
        assert(out@ == a@.take(i as int));
    }
    assert(a@.take(a@.len() as int) == a@);
    let mut j: usize = 0;
    while j < b.len()
        invariant
            j <= b@.len(),
            out@ == a@ + b@.take(j as int),
        decreases b@.len() - j,
    {
        out.push(b[j]);
        j = j + 1;
        assert(out@ == a@ + b@.take(j as int));
    }
    assert(b@.take(b@.len() as int) == b@);
    out
}

/// Encrypt `plaintext` with `key` under a given 12-byte nonce. Returns
/// `nonce || ciphertext+tag`.
pub fn seal_with_nonce(key: &SecretKey, nonce: &[u8], plaintext: &[u8]) -> (r: Result<Vec<u8>, CryptoError>)
    requires
        nonce@.len() == NONCE_LEN,
    ensures
        r is Ok <==> seal_accepts(plaintext@.len() as int),
        r matches Ok(blob) ==> {
            &&& blob@ == sealed_blob(key@, nonce@, plaintext@)
            &&& blob@.len() == NONCE_LEN + plaintext@.len() + TAG_LEN
            &&& decrypt_outcome(key@, blob@) == Ok::<Seq<u8>, CryptoError>(plaintext@)
        },
        r matches Err(e) ==> e is Decrypt,
{
    let k = key.as_bytes();
    match aead_seal(k, nonce, plaintext) {
        Some(ciphertext) => {
            let blob = concat_bytes(nonce, ciphertext.as_slice());
            assert(blob@.take(NONCE_LEN as int) == nonce@);
            assert(blob@.skip(NONCE_LEN as int) == ciphertext@);
            Ok(blob)
        },
        None => Err(CryptoError::Decrypt),
    }
}

/// Encrypt `plaintext` with `key`. Returns `nonce(12) || ciphertext+tag`.
///
/// Each call uses a fresh random nonce, so encrypting the same plaintext twice
/// yields different ciphertexts; whatever the nonce, the blob decrypts back to
/// the plaintext under the same key.
pub fn encrypt(key: &SecretKey, plaintext: &[u8]) -> (r: Result<Vec<u8>, CryptoError>)
    ensures
        r is Ok <==> seal_accepts(plaintext@.len() as int),
        r matches Ok(blob) ==> {
            &&& blob@.len() == NONCE_LEN + plaintext@.len() + TAG_LEN
            &&& blob@ == sealed_blob(key@, blob@.take(NONCE_LEN as int), plaintext@)
            &&& decrypt_outcome(key@, blob@) == Ok::<Seq<u8>, CryptoError>(plaintext@)
        },
        r matches Err(e) ==> e is Decrypt,
{
    let nonce = random_bytes(NONCE_LEN);
    let r = seal_with_nonce(key, nonce.as_slice(), plaintext);
    proof {
        if r is Ok {
            assert(r->Ok_0@.take(NONCE_LEN as int) == nonce@);
        }
    }
    r
}

/// Decrypt a blob produced by [`encrypt`].
pub fn decrypt(key: &SecretKey, blob: &[u8]) -> (r: Result<Vec<u8>, CryptoError>)
    ensures
        bytes_result(r) == decrypt_outcome(key@, blob@),
        r matches Ok(p) ==> p@.len() + NONCE_LEN + TAG_LEN == blob@.len(),
        blob@.len() < NONCE_LEN ==> (r matches Err(CryptoError::NonceLen { expected, actual }) && expected
            == NONCE_LEN && actual == blob@.len()),
        NONCE_LEN <= blob@.len() < NONCE_LEN + TAG_LEN ==> r matches Err(CryptoError::Decrypt),
{
    if blob.len() < NONCE_LEN {
        return Err(CryptoError::NonceLen { expected: NONCE_LEN, actual: blob.len() });
    }
    let (nonce, ciphertext) = blob.split_at(NONCE_LEN);
    assert(nonce@ == blob@.take(NONCE_LEN as int));
    assert(ciphertext@ == blob@.skip(NONCE_LEN as int));
    match aead_open(key.as_bytes(), nonce, ciphertext) {
        Some(p) => Ok(p),
        None => Err(CryptoError::Decrypt),
    }
}

} // verus!
