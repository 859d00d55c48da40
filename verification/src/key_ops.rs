//! The per-user encryption key: setup, verification, and rotation
//! (re-encryption of all blobs under a new passphrase).
use vstd::prelude::*;

use crate::crypto::{
    argon2_accepts, argon2id_digest, decrypt, decrypt_outcome, derive_key, encrypt, kdf_key, random_bytes,
    crypto_error_text, seal_accepts, CryptoError, SecretKey, NONCE_LEN, SALT_LEN,
};
use crate::db::{
    DbError, DbHandle, DbModel, UserRow, is_db_error_text, chunks_without, has_chunk, last_n, row_seqs, lemma_messages_without_has_none,
    messages_of, messages_without, same_db, lemma_chunk_seqs_unique,
};
use crate::state::AppState;

verus! {

/// Argon2id memory cost of the passphrase verifier, in KiB (deliberately
/// heavier than the key derivation, since it is checked once per key set).
pub const VERIFIER_M_COST: u32 = 49152;

/// Argon2id iteration count of the passphrase verifier.
pub const VERIFIER_T_COST: u32 = 3;

/// Errors of key setup, verification, removal and rotation.
#[derive(Debug)]
pub enum KeyError {
    /// No key set for this account.
    NoUser(i64),
    /// The passphrase does not match the stored verifier.
    WrongPassphrase,
    Crypto(CryptoError),
    Db(DbError),
}

/// The message of a key error.
pub open spec fn key_error_text(e: KeyError) -> Seq<char> {
    match e {
        KeyError::NoUser(_) => "No key set for your account. Use /key set first."@,
        KeyError::WrongPassphrase => "Wrong passphrase."@,
        KeyError::Crypto(c) => crypto_error_text(c),
        KeyError::Db(_) => Seq::empty(),
    }
}

/// Whether a text is the message of a key error; a storage error speaks
/// for itself.
pub open spec fn is_key_error_text(e: KeyError, s: Seq<char>) -> bool {
    match e {
        KeyError::Db(d) => is_db_error_text(d, s),
        _ => s == key_error_text(e),
    }
}

impl KeyError {
    /// The error's message.
    pub fn message(&self) -> (s: String)
        ensures
            is_key_error_text(*self, s@),
    {
        match self {
            KeyError::NoUser(_) => String::from_str("No key set for your account. Use /key set first."),
            KeyError::WrongPassphrase => String::from_str("Wrong passphrase."),
            KeyError::Crypto(e) => e.message(),
            KeyError::Db(e) => e.message(),
        }
    }
}

/// The 32-byte verifier hash of a passphrase over a salt.
pub open spec fn verifier_digest(passphrase: Seq<u8>, salt: Seq<u8>) -> Seq<u8> {
    argon2id_digest(passphrase, salt, VERIFIER_M_COST, VERIFIER_T_COST, 32)
}

/// Whether a passphrase matches a stored record `(pw_hash, verifier_salt, key_salt)`.
pub open spec fn passphrase_verifies(record: (Seq<u8>, Seq<u8>, Seq<u8>), passphrase: Seq<u8>) -> bool {
    argon2_accepts(passphrase, record.1) && verifier_digest(passphrase, record.1) == record.0
}

/// Whether Argon2 takes the passphrase with the record's verifier salt but
/// the verifier it gives is not the stored one.
pub open spec fn mismatched(record: (Seq<u8>, Seq<u8>, Seq<u8>), passphrase: Seq<u8>) -> bool {
    argon2_accepts(passphrase, record.1) && verifier_digest(passphrase, record.1) != record.0
}

/// Whether Argon2 refuses the passphrase with a salt it is run on: the
/// verifier salt, or (once the passphrase verifies) the key salt.
pub open spec fn kdf_refused(record: (Seq<u8>, Seq<u8>, Seq<u8>), passphrase: Seq<u8>) -> bool {
    !argon2_accepts(passphrase, record.1) || (passphrase_verifies(record, passphrase) && !argon2_accepts(
        passphrase,
        record.2,
    ))
}

/// The key that a passphrase unlocks for a user: present iff the user has a
/// record, the passphrase verifies against it and the key salt is usable.
pub open spec fn unlocked_key(db: DbModel, tg_id: i64, passphrase: Seq<u8>) -> Option<Seq<u8>> {
    if db.users.contains_key(tg_id) && passphrase_verifies(db.users[tg_id], passphrase) && argon2_accepts(
        passphrase,
        db.users[tg_id].2,
    ) {
        Some(kdf_key(passphrase, db.users[tg_id].2))
    } else {
        None
    }
}

/// Compute the 32-byte Argon2id verifier hash of a passphrase.
pub fn verifier_hash(passphrase: &[u8], salt: &[u8]) -> (r: Result<Vec<u8>, CryptoError>)
    ensures
        r is Ok <==> argon2_accepts(passphrase@, salt@),
        r matches Ok(h) ==> h@ == verifier_digest(passphrase@, salt@) && h@.len() == 32,
        r matches Err(e) ==> e is Kdf,
{
    match crate::crypto::argon2id_hash(passphrase, salt, VERIFIER_M_COST, VERIFIER_T_COST, 32) {
        Ok(h) => Ok(h),
        Err(msg) => Err(CryptoError::Kdf(msg)),
    }
}

/// Constant-time comparison, so passphrase verification isn't timing-leaky:
/// every byte pair is looked at whatever the earlier ones were.
pub fn constant_time_eq(a: &[u8], b: &[u8]) -> (r: bool)
    ensures
        r == (a@ == b@),
{
    if a.len() != b.len() {
        return false;
    }
    let mut diff: u8 = 0;
    let mut i: usize = 0;
    while i < a.len()
        invariant
            a@.len() == b@.len(),
            i <= a@.len(),
            (diff == 0) <==> (a@.take(i as int) =~= b@.take(i as int)),
        decreases a@.len() - i,
    {
        let x = a[i];
        let y = b[i];
        let d = diff;
        diff = diff | (x ^ y);
        assert((d | (x ^ y)) == 0u8 <==> (d == 0u8 && x == y)) by (bit_vector);
        assert(a@.take(i + 1) =~= a@.take(i as int).push(x));
        assert(b@.take(i + 1) =~= b@.take(i as int).push(y));
        proof {
            if a@.take(i + 1) =~= b@.take(i + 1) {
                assert(a@.take(i + 1)[i as int] == x);
                assert(a@.take(i as int) =~= a@.take(i + 1).drop_last());
                assert(b@.take(i as int) =~= b@.take(i + 1).drop_last());
            }
        }
        i = i + 1;
    }
    assert(a@.take(a@.len() as int) == a@);
    assert(b@.take(b@.len() as int) == b@);
    diff == 0
}

/// Check a passphrase against the stored user record. Compares the
/// recomputed verifier hash in constant time and returns the derived
/// encryption key on success.
pub fn verify_and_derive(db: &DbHandle, tg_id: i64, passphrase: &[u8]) -> (r: Result<SecretKey, KeyError>)
    ensures
        !(r matches Err(KeyError::Db(_))) ==> (r is Ok <==> unlocked_key(db@, tg_id, passphrase@) is Some),
        r matches Ok(k) ==> unlocked_key(db@, tg_id, passphrase@) == Some(k@),
        r matches Err(KeyError::NoUser(id)) ==> id == tg_id && !db@.users.contains_key(tg_id),
        r matches Err(KeyError::WrongPassphrase) ==> db@.users.contains_key(tg_id)
            && argon2_accepts(passphrase@, db@.users[tg_id].1)
            && verifier_digest(passphrase@, db@.users[tg_id].1) != db@.users[tg_id].0,
        r matches Err(KeyError::Crypto(e)) ==> e is Kdf && db@.users.contains_key(tg_id) && kdf_refused(
            db@.users[tg_id],
            passphrase@,
        ),
        r matches Err(KeyError::Db(e)) ==> e is Sqlite,
        db@.users.contains_key(tg_id) && mismatched(db@.users[tg_id], passphrase@) ==> (r matches Err(
            KeyError::WrongPassphrase,
        ) || r matches Err(KeyError::Db(_))),
{
    let user = match db.get_user(tg_id) {
        Ok(Some(u)) => u,
        Ok(None) => return Err(KeyError::NoUser(tg_id)),
        Err(e) => return Err(KeyError::Db(e)),
    };
    let computed = match verifier_hash(passphrase, user.verifier_salt.as_slice()) {
        Ok(h) => h,
        Err(e) => return Err(KeyError::Crypto(e)),
    };
    if !constant_time_eq(computed.as_slice(), user.pw_hash.as_slice()) {
        return Err(KeyError::WrongPassphrase);
    }
    match derive_key(passphrase, user.key_salt.as_slice()) {
        Ok(k) => Ok(k),
        Err(e) => Err(KeyError::Crypto(e)),
    }
}

/// Whether `new` is `old` with a fresh record for the user: random 16-byte
/// salts and the verifier of the passphrase; chunks and messages untouched.
pub open spec fn user_added(old: DbModel, new: DbModel, tg_id: i64, passphrase: Seq<u8>) -> bool {
    &&& !old.users.contains_key(tg_id)
    &&& new.users.contains_key(tg_id)
    &&& new.users == old.users.insert(tg_id, new.users[tg_id])
    &&& new.users[tg_id].1.len() == SALT_LEN
    &&& new.users[tg_id].2.len() == SALT_LEN
    &&& new.users[tg_id].0 == verifier_digest(passphrase, new.users[tg_id].1)
    &&& new.chunks == old.chunks
    &&& new.messages == old.messages
}

/// What a successful [`set_key`] guarantees of the states before and after:
/// the key in memory is the one the passphrase unlocks from the resulting
/// record; an existing record is left as it was, a missing one is created.
pub open spec fn set_key_succeeded(before: AppState, after: AppState, tg_id: i64, passphrase: Seq<u8>) -> bool {
    &&& after.key_map().contains_key(tg_id)
    &&& unlocked_key(after.db@, tg_id, passphrase) == Some(after.key_map()[tg_id])
    &&& after.key_map() == before.key_map().insert(tg_id, after.key_map()[tg_id])
    &&& if before.db@.users.contains_key(tg_id) {
        same_db(after.db@, before.db@)
    } else {
        user_added(before.db@, after.db@, tg_id, passphrase)
    }
}

/// Load (or first-time create) the user's encryption key.
///
/// - No user record yet: create one (random salts), store the Argon2id
///   verifier of the passphrase, derive the key, keep it in memory.
/// - A record already exists (e.g. after a restart): the passphrase must
///   verify against it; then the key is derived from the stored key salt and
///   loaded ("restore after restart"). A mismatch is
///   [`KeyError::WrongPassphrase`] and touches neither memory nor database.
///
/// On success the key in memory is exactly the key that the passphrase
/// unlocks from the (resulting) record.
pub fn set_key(state: &mut AppState, tg_id: i64, passphrase: &[u8]) -> (r: Result<(), KeyError>)
    ensures
        r is Ok ==> set_key_succeeded(*old(state), *final(state), tg_id, passphrase@),
        old(state).db@.users.contains_key(tg_id) && !(r matches Err(KeyError::Db(_))) ==> (r is Ok <==> unlocked_key(
            old(state).db@,
            tg_id,
            passphrase@,
        ) is Some),
        r matches Err(KeyError::WrongPassphrase) ==> {
            &&& old(state).db@.users.contains_key(tg_id)
            &&& !passphrase_verifies(old(state).db@.users[tg_id], passphrase@)
            &&& same_db(final(state).db@, old(state).db@)
        },
        r matches Err(KeyError::Crypto(e)) ==> e is Kdf && if old(state).db@.users.contains_key(tg_id) {
            kdf_refused(old(state).db@.users[tg_id], passphrase@)
        } else {
            passphrase@.len() > 0xFFFF_FFFF
        },
        r matches Err(KeyError::Db(e)) ==> e is Sqlite,
        old(state).db@.users.contains_key(tg_id) && mismatched(old(state).db@.users[tg_id], passphrase@) ==> (
        r matches Err(KeyError::WrongPassphrase) || r matches Err(KeyError::Db(_))),
        !(r matches Err(KeyError::NoUser(_))),
        r is Err ==> final(state).key_map() == old(state).key_map() && (same_db(final(state).db@, old(state).db@)
            || user_added(old(state).db@, final(state).db@, tg_id, passphrase@)),
{
    let existing = match state.db.get_user(tg_id) {
        Ok(u) => u,
        Err(e) => return Err(KeyError::Db(e)),
    };
    match existing {
        None => {
            // First-time setup.
            let verifier_salt = random_bytes(SALT_LEN);
            let key_salt = random_bytes(SALT_LEN);
            let pw_hash = match verifier_hash(passphrase, verifier_salt.as_slice()) {
                Ok(h) => h,
                Err(e) => return Err(KeyError::Crypto(e)),
            };
            let row = UserRow { tg_id, pw_hash, verifier_salt, key_salt };
            match state.db.insert_user(&row) {
                Ok(()) => {},
                Err(e) => return Err(KeyError::Db(e)),
            }
            let stored = match state.db.get_user(tg_id) {
                Ok(Some(u)) => u,
                Ok(None) => {
                    assert(false);
                    return Err(KeyError::NoUser(tg_id));
                },
                Err(e) => return Err(KeyError::Db(e)),
            };
            let key = match derive_key(passphrase, stored.key_salt.as_slice()) {
                Ok(k) => k,
                Err(e) => return Err(KeyError::Crypto(e)),
            };
            state.set_key(tg_id, key);
            assert(state.key_map().contains_key(tg_id));
            assert(unlocked_key(state.db@, tg_id, passphrase@) == Some(state.key_map()[tg_id]));
            assert(user_added(old(state).db@, state.db@, tg_id, passphrase@));
            assert(state.key_map() == old(state).key_map().insert(tg_id, state.key_map()[tg_id]));
            assert(set_key_succeeded(*old(state), *state, tg_id, passphrase@));
            Ok(())
        },
        Some(user) => {
            // Restore path: verify the passphrase against the stored verifier.
            let computed = match verifier_hash(passphrase, user.verifier_salt.as_slice()) {
                Ok(h) => h,
                Err(e) => return Err(KeyError::Crypto(e)),
            };
            if !constant_time_eq(computed.as_slice(), user.pw_hash.as_slice()) {
                return Err(KeyError::WrongPassphrase);
            }
            let key = match derive_key(passphrase, user.key_salt.as_slice()) {
                Ok(k) => k,
                Err(e) => return Err(KeyError::Crypto(e)),
            };
            state.set_key(tg_id, key);
            assert(state.key_map() == old(state).key_map().insert(tg_id, state.key_map()[tg_id]));
            assert(set_key_succeeded(*old(state), *state, tg_id, passphrase@));
            Ok(())
        },
    }
}

/// What a successful [`delete_user`] guarantees: no key in memory, and no
/// record, chunk or message of the user left; everything else kept.
pub open spec fn user_deleted(before: AppState, after: AppState, tg_id: i64) -> bool {
    &&& after.key_map() == before.key_map().remove(tg_id)
    &&& after.db@.users == before.db@.users.remove(tg_id)
    &&& after.db@.chunks == chunks_without(before.db@.chunks, tg_id)
    &&& after.db@.messages == messages_without(before.db@.messages, tg_id)
}

/// Full wipe: drop the key from memory AND delete the user record (which
/// cascades to all their context chunks and messages). Irreversible.
///
/// Returns `true` if there was anything to remove.
pub fn delete_user(state: &mut AppState, tg_id: i64) -> (r: Result<bool, KeyError>)
    ensures
        final(state).key_map() == old(state).key_map().remove(tg_id),
        r matches Ok(b) ==> b == (old(state).key_map().contains_key(tg_id) || old(state).db@.users.contains_key(tg_id))
            && user_deleted(*old(state), *final(state), tg_id),
        r matches Err(e) ==> e is Db && same_db(final(state).db@, old(state).db@),
        r matches Err(KeyError::Db(e)) ==> e is Sqlite,
{
    let in_memory = state.clear_key(tg_id);
    let in_db = match state.db.delete_user(tg_id) {
        Ok(b) => b,
        Err(e) => return Err(KeyError::Db(e)),
    };
    assert(state.key_map() == old(state).key_map().remove(tg_id));
    assert(state.db@.users == old(state).db@.users.remove(tg_id));
    assert(state.db@.chunks == chunks_without(old(state).db@.chunks, tg_id));
    assert(state.db@.messages == messages_without(old(state).db@.messages, tg_id));
    assert(user_deleted(*old(state), *state, tg_id));
    Ok(in_memory || in_db)
}

/// The user's messages that a key rotation rewrites: the last `u32::MAX`.
pub open spec fn rotated_messages(db: DbModel, tg_id: i64) -> Seq<(Seq<char>, Seq<u8>)> {
    last_n(messages_of(db.messages, tg_id), u32::MAX as int)
}

/// Whether every chunk of the user decrypts under `key`.
pub open spec fn chunks_decrypt(db: DbModel, tg_id: i64, key: Seq<u8>) -> bool {
    forall|s: i64| #[trigger] has_chunk(db, tg_id, s) ==> decrypt_outcome(key, db.chunks[(tg_id, s)]) is Ok
}

/// Whether every message that a rotation rewrites decrypts under `key`.
pub open spec fn messages_decrypt(db: DbModel, tg_id: i64, key: Seq<u8>) -> bool {
    forall|i: int| 0 <= i < rotated_messages(db, tg_id).len() ==> decrypt_outcome(
        key,
        #[trigger] rotated_messages(db, tg_id)[i].1,
    ) is Ok
}

/// Whether every chunk of the user and every message that a rotation
/// rewrites decrypts under `key`.
pub open spec fn user_data_decrypts(db: DbModel, tg_id: i64, key: Seq<u8>) -> bool {
    chunks_decrypt(db, tg_id, key) && messages_decrypt(db, tg_id, key)
}

/// Whether `new` holds the chunks of `old` with the user's chunks re-encrypted:
/// same numbers, same plaintexts under the new key, other users untouched.
pub open spec fn chunks_reencrypted(
    old: Map<(i64, i64), Seq<u8>>,
    new: Map<(i64, i64), Seq<u8>>,
    tg_id: i64,
    old_key: Seq<u8>,
    new_key: Seq<u8>,
) -> bool {
    &&& new.dom() == old.dom()
    &&& forall|k: (i64, i64)| #[trigger] old.contains_key(k) && k.0 != tg_id ==> new[k] == old[k]
    &&& forall|s: i64| #[trigger] old.contains_key((tg_id, s)) ==> decrypt_outcome(new_key, new[(tg_id, s)])
        == decrypt_outcome(old_key, old[(tg_id, s)])
}

/// Whether `new` lists the messages of `old` re-encrypted: same roles, same
/// order, same plaintexts under the new key.
pub open spec fn messages_reencrypted(
    old: Seq<(Seq<char>, Seq<u8>)>,
    new: Seq<(Seq<char>, Seq<u8>)>,
    old_key: Seq<u8>,
    new_key: Seq<u8>,
) -> bool {
    &&& new.len() == old.len()
    &&& forall|i: int| 0 <= i < old.len() ==> (#[trigger] new[i]).0 == old[i].0 && decrypt_outcome(new_key, new[i].1)
        == decrypt_outcome(old_key, old[i].1)
}

/// Whether every blob of the user that a rotation rewrites decrypts, under
/// `key`, to a plaintext that ChaCha20-Poly1305 can encrypt again.
pub open spec fn plaintexts_sealable(db: DbModel, tg_id: i64, key: Seq<u8>) -> bool {
    &&& forall|s: i64| #[trigger] has_chunk(db, tg_id, s) ==> match decrypt_outcome(key, db.chunks[(tg_id, s)]) {
        Ok(p) => seal_accepts(p.len() as int),
        Err(_) => true,
    }
    &&& forall|i: int| 0 <= i < rotated_messages(db, tg_id).len() ==> match decrypt_outcome(
        key,
        #[trigger] rotated_messages(db, tg_id)[i].1,
    ) {
        Ok(p) => seal_accepts(p.len() as int),
        Err(_) => true,
    }
}

/// Whether a key change can go through, storage failures aside: the old
/// passphrase unlocks the key, every blob decrypts under it and can be
/// encrypted again, and Argon2 takes the new passphrase.
pub open spec fn rotation_possible(db: DbModel, tg_id: i64, old_passphrase: Seq<u8>, new_passphrase: Seq<u8>) -> bool {
    match unlocked_key(db, tg_id, old_passphrase) {
        Some(k) => user_data_decrypts(db, tg_id, k) && plaintexts_sealable(db, tg_id, k) && new_passphrase.len()
            <= 0xFFFF_FFFF,
        None => false,
    }
}

/// What a successful [`change_key`] guarantees of the states before and
/// after: the old passphrase unlocked the old key and all the user's data
/// decrypted under it and could be encrypted again; the new passphrase
/// unlocks the key now in memory; every chunk and every rewritten message
/// holds, under the new key, what it held under the old one; the rest of
/// the database is untouched.
pub open spec fn key_changed(before: AppState, after: AppState, tg_id: i64, old_passphrase: Seq<u8>, new_passphrase: Seq<u8>) -> bool {
    let old_key = unlocked_key(before.db@, tg_id, old_passphrase)->Some_0;
    let new_key = after.key_map()[tg_id];
    &&& unlocked_key(before.db@, tg_id, old_passphrase) is Some
    &&& user_data_decrypts(before.db@, tg_id, old_key)
    &&& plaintexts_sealable(before.db@, tg_id, old_key)
    &&& after.key_map() == before.key_map().insert(tg_id, new_key)
    &&& unlocked_key(after.db@, tg_id, new_passphrase) == Some(new_key)
    &&& after.db@.users == before.db@.users.insert(tg_id, after.db@.users[tg_id])
    &&& after.db@.users[tg_id].1.len() == SALT_LEN
    &&& after.db@.users[tg_id].2.len() == SALT_LEN
    &&& chunks_reencrypted(before.db@.chunks, after.db@.chunks, tg_id, old_key, new_key)
    &&& messages_without(after.db@.messages, tg_id) == messages_without(before.db@.messages, tg_id)
    &&& messages_reencrypted(
        rotated_messages(before.db@, tg_id),
        messages_of(after.db@.messages, tg_id),
        old_key,
        new_key,
    )
}

/// Decrypt every blob under a key; the first blob that does not decrypt
/// gives the error.
pub fn open_blobs(key: &SecretKey, blobs: &[Vec<u8>]) -> (r: Result<Vec<Vec<u8>>, CryptoError>)
    ensures
        r is Ok <==> forall|i: int| 0 <= i < blobs@.len() ==> decrypt_outcome(key@, #[trigger] blobs@[i]@) is Ok,
        r matches Ok(p) ==> p@.len() == blobs@.len() && forall|i: int| 0 <= i < blobs@.len()
            ==> decrypt_outcome(key@, #[trigger] blobs@[i]@) == Ok::<Seq<u8>, CryptoError>(p@[i]@),
        r matches Err(e) ==> exists|i: int| 0 <= i < blobs@.len() && decrypt_outcome(key@, #[trigger] blobs@[i]@)
            == Err::<Seq<u8>, CryptoError>(e),
{
    let mut out: Vec<Vec<u8>> = Vec::new();
    let mut i: usize = 0;
    while i < blobs.len()
        invariant
            i <= blobs@.len(),
            out@.len() == i,
            forall|j: int| 0 <= j < i ==> decrypt_outcome(key@, #[trigger] blobs@[j]@) == Ok::<Seq<u8>, CryptoError>(
                out@[j]@,
            ),
        decreases blobs@.len() - i,
    {
        match decrypt(key, blobs[i].as_slice()) {
            Ok(p) => out.push(p),
            Err(e) => {
                assert(decrypt_outcome(key@, blobs@[i as int]@) == Err::<Seq<u8>, CryptoError>(e));
                return Err(e);
            },
        }
        i = i + 1;
    }
    Ok(out)
}

/// Encrypt every plaintext under a key; fails when one is too long for
/// ChaCha20-Poly1305.
pub fn seal_blobs(key: &SecretKey, plaintexts: &[Vec<u8>]) -> (r: Result<Vec<Vec<u8>>, CryptoError>)
    ensures
        r is Ok <==> forall|i: int| 0 <= i < plaintexts@.len() ==> seal_accepts((#[trigger] plaintexts@[i])@.len() as int),
        r matches Ok(c) ==> c@.len() == plaintexts@.len() && forall|i: int| 0 <= i < plaintexts@.len()
            ==> decrypt_outcome(key@, (#[trigger] c@[i])@) == Ok::<Seq<u8>, CryptoError>(plaintexts@[i]@) && c@[i]@.len()
            >= NONCE_LEN,
        r matches Err(e) ==> e is Decrypt,
{
    let mut out: Vec<Vec<u8>> = Vec::new();
    let mut i: usize = 0;
    while i < plaintexts.len()
        invariant
            i <= plaintexts@.len(),
            out@.len() == i,
            forall|j: int| 0 <= j < i ==> seal_accepts((#[trigger] plaintexts@[j])@.len() as int),
            forall|j: int| 0 <= j < i ==> decrypt_outcome(key@, (#[trigger] out@[j])@) == Ok::<Seq<u8>, CryptoError>(
                plaintexts@[j]@,
            ) && out@[j]@.len() >= NONCE_LEN,
        decreases plaintexts@.len() - i,
    {
        match encrypt(key, plaintexts[i].as_slice()) {
            Ok(c) => out.push(c),
            Err(e) => return Err(e),
        }
        i = i + 1;
    }
    Ok(out)
}

/// The blobs and numbers of chunk rows.
fn chunk_parts(rows: &[crate::db::ChunkRow]) -> (r: (Vec<i64>, Vec<Vec<u8>>))
    ensures
        r.0@ == row_seqs(rows@),
        r.1@.len() == rows@.len(),
        forall|i: int| 0 <= i < rows@.len() ==> (#[trigger] r.1@[i])@ == rows@[i].blob@,
{
    let mut seqs: Vec<i64> = Vec::new();
    let mut blobs: Vec<Vec<u8>> = Vec::new();
    let mut i: usize = 0;
    while i < rows.len()
        invariant
            i <= rows@.len(),
            seqs@ == row_seqs(rows@).take(i as int),
            blobs@.len() == i,
            forall|j: int| 0 <= j < i ==> (#[trigger] blobs@[j])@ == rows@[j].blob@,
        decreases rows@.len() - i,
    {
        seqs.push(rows[i].seq);
        blobs.push(rows[i].blob.clone());
        i = i + 1;
        assert(seqs@ =~= row_seqs(rows@).take(i as int));
    }
    assert(row_seqs(rows@).take(rows@.len() as int) =~= row_seqs(rows@));
    (seqs, blobs)
}

/// The roles and blobs of message rows.
fn message_parts(rows: &[crate::db::MessageRow]) -> (r: (Vec<String>, Vec<Vec<u8>>))
    ensures
        r.0@.len() == rows@.len(),
        r.1@.len() == rows@.len(),
        forall|i: int| 0 <= i < rows@.len() ==> (#[trigger] r.0@[i])@ == rows@[i].role@ && r.1@[i]@ == rows@[i].blob@,
{
    let mut roles: Vec<String> = Vec::new();
    let mut blobs: Vec<Vec<u8>> = Vec::new();
    let mut i: usize = 0;
    while i < rows.len()
        invariant
            i <= rows@.len(),
            roles@.len() == i,
            blobs@.len() == i,
            forall|j: int| 0 <= j < i ==> (#[trigger] roles@[j])@ == rows@[j].role@ && blobs@[j]@ == rows@[j].blob@,
        decreases rows@.len() - i,
    {
        roles.push(rows[i].role.clone());
        blobs.push(rows[i].blob.clone());
        i = i + 1;
    }
    (roles, blobs)
}

/// Change the passphrase: verify the old one, decrypt every blob, derive
/// the new key, encrypt every blob again, then write the blobs and the new
/// verifier record in one transaction and load the new key.
///
/// All-or-nothing: a wrong old passphrase, data that cannot be decrypted or
/// encrypted again, or a storage failure leaves the database and the memory
/// as they were; only when SQLite also fails to roll back a failed write
/// (`DbError::RollbackFailed`) is the database left unknown.
pub fn change_key(state: &mut AppState, tg_id: i64, old_passphrase: &[u8], new_passphrase: &[u8]) -> (r: Result<(), KeyError>)
    ensures
        r is Ok ==> key_changed(*old(state), *final(state), tg_id, old_passphrase@, new_passphrase@),
        r is Err ==> final(state).key_map() == old(state).key_map(),
        r is Err && !(r matches Err(KeyError::Db(DbError::RollbackFailed(_)))) ==> same_db(
            final(state).db@,
            old(state).db@,
        ),
        r matches Err(KeyError::Db(e)) ==> e is Sqlite || e is RollbackFailed,
        r matches Err(KeyError::NoUser(id)) ==> id == tg_id && !old(state).db@.users.contains_key(tg_id),
        r matches Err(KeyError::WrongPassphrase) ==> old(state).db@.users.contains_key(tg_id) && mismatched(
            old(state).db@.users[tg_id],
            old_passphrase@,
        ),
        old(state).db@.users.contains_key(tg_id) && mismatched(old(state).db@.users[tg_id], old_passphrase@) ==> (
        r matches Err(KeyError::WrongPassphrase) || r matches Err(KeyError::Db(_))),
        !(r matches Err(KeyError::Db(_))) ==> (r is Ok <==> rotation_possible(
            old(state).db@,
            tg_id,
            old_passphrase@,
            new_passphrase@,
        )),
{
    let ghost old_db = state.db@;
    let old_key = match verify_and_derive(&state.db, tg_id, old_passphrase) {
        Ok(k) => k,
        Err(e) => return Err(e),
    };

    // 1. Decrypt every blob under the old key.
    let chunks = match state.db.chunks(tg_id) {
        Ok(c) => c,
        Err(e) => return Err(KeyError::Db(e)),
    };
    let (seqs, chunk_blobs) = chunk_parts(chunks.as_slice());
    proof {
        lemma_chunk_seqs_unique(old_db, tg_id, seqs@);
    }
    let plain_chunks = match open_blobs(&old_key, chunk_blobs.as_slice()) {
        Ok(p) => p,
        Err(e) => {
            proof {
                let i = choose|i: int| 0 <= i < chunk_blobs@.len() && decrypt_outcome(old_key@, #[trigger] chunk_blobs@[i]@)
                    == Err::<Seq<u8>, CryptoError>(e);
                assert(has_chunk(old_db, tg_id, seqs@[i]));
                assert(chunk_blobs@[i]@ == old_db.chunks[(tg_id, seqs@[i])]);
                assert(!chunks_decrypt(old_db, tg_id, old_key@));
            }
            return Err(KeyError::Crypto(e));
        },
    };
    assert(chunks_decrypt(old_db, tg_id, old_key@)) by {
        assert forall|s: i64| #[trigger] has_chunk(old_db, tg_id, s) implies decrypt_outcome(
            old_key@,
            old_db.chunks[(tg_id, s)],
        ) is Ok by {
            assert(seqs@.contains(s));
            let j = choose|j: int| 0 <= j < seqs@.len() && seqs@[j] == s;
            assert(chunk_blobs@[j]@ == chunks@[j].blob@);
        }
    }
    let messages = match state.db.recent_messages(tg_id, u32::MAX) {
        Ok(m) => m,
        Err(e) => return Err(KeyError::Db(e)),
    };
    let (roles, message_blobs) = message_parts(messages.as_slice());
    assert(forall|i: int| 0 <= i < messages@.len() ==> rotated_messages(old_db, tg_id)[i] == (
        #[trigger] messages@[i].role@,
        messages@[i].blob@,
    )) by {
        assert forall|i: int| 0 <= i < messages@.len() implies rotated_messages(old_db, tg_id)[i] == (
            #[trigger] messages@[i].role@,
            messages@[i].blob@,
        ) by {
            assert(crate::db::message_views(messages@)[i] == (messages@[i].role@, messages@[i].blob@));
        }
    }
    let plain_messages = match open_blobs(&old_key, message_blobs.as_slice()) {
        Ok(p) => p,
        Err(e) => {
            proof {
                let i = choose|i: int| 0 <= i < message_blobs@.len() && decrypt_outcome(
                    old_key@,
                    #[trigger] message_blobs@[i]@,
                ) == Err::<Seq<u8>, CryptoError>(e);
                assert(roles@[i]@ == messages@[i].role@ && message_blobs@[i]@ == messages@[i].blob@);
                assert(rotated_messages(old_db, tg_id)[i] == (messages@[i].role@, messages@[i].blob@));
                assert(rotated_messages(old_db, tg_id)[i].1 == message_blobs@[i]@);
                assert(!messages_decrypt(old_db, tg_id, old_key@));
            }
            return Err(KeyError::Crypto(e));
        },
    };
    assert(messages_decrypt(old_db, tg_id, old_key@)) by {
        assert forall|k: int| 0 <= k < rotated_messages(old_db, tg_id).len() implies decrypt_outcome(
            old_key@,
            #[trigger] rotated_messages(old_db, tg_id)[k].1,
        ) is Ok by {
            assert(roles@[k]@ == messages@[k].role@ && message_blobs@[k]@ == messages@[k].blob@);
            assert(rotated_messages(old_db, tg_id)[k] == (messages@[k].role@, messages@[k].blob@));
        }
    }

    // 2. New salts, verifier and key.
    let new_verifier_salt = random_bytes(SALT_LEN);
    let new_key_salt = random_bytes(SALT_LEN);
    let new_pw_hash = match verifier_hash(new_passphrase, new_verifier_salt.as_slice()) {
        Ok(h) => h,
        Err(e) => return Err(KeyError::Crypto(e)),
    };
    let new_key = match derive_key(new_passphrase, new_key_salt.as_slice()) {
        Ok(k) => k,
        Err(e) => return Err(KeyError::Crypto(e)),
    };

    // 3. Encrypt every blob again under the new key.
    let sealed_chunks = match seal_blobs(&new_key, plain_chunks.as_slice()) {
        Ok(c) => c,
        Err(e) => {
            proof {
                let i = choose|i: int| 0 <= i < plain_chunks@.len() && !seal_accepts(
                    (#[trigger] plain_chunks@[i])@.len() as int,
                );
                assert(has_chunk(old_db, tg_id, seqs@[i]));
                assert(chunk_blobs@[i]@ == old_db.chunks[(tg_id, seqs@[i])]);
                assert(!plaintexts_sealable(old_db, tg_id, old_key@));
            }
            return Err(KeyError::Crypto(e));
        },
    };
    let sealed_messages = match seal_blobs(&new_key, plain_messages.as_slice()) {
        Ok(c) => c,
        Err(e) => {
            proof {
                let i = choose|i: int| 0 <= i < plain_messages@.len() && !seal_accepts(
                    (#[trigger] plain_messages@[i])@.len() as int,
                );
                assert(roles@[i]@ == messages@[i].role@ && message_blobs@[i]@ == messages@[i].blob@);
                assert(rotated_messages(old_db, tg_id)[i] == (messages@[i].role@, messages@[i].blob@));
                assert(rotated_messages(old_db, tg_id)[i].1 == message_blobs@[i]@);
                assert(!plaintexts_sealable(old_db, tg_id, old_key@));
            }
            return Err(KeyError::Crypto(e));
        },
    };
    assert(plaintexts_sealable(old_db, tg_id, old_key@)) by {
        assert forall|s: i64| #[trigger] has_chunk(old_db, tg_id, s) implies match decrypt_outcome(
            old_key@,
            old_db.chunks[(tg_id, s)],
        ) {
            Ok(p) => seal_accepts(p.len() as int),
            Err(_) => true,
        } by {
            assert(seqs@.contains(s));
            let j = choose|j: int| 0 <= j < seqs@.len() && seqs@[j] == s;
            assert(chunk_blobs@[j]@ == chunks@[j].blob@);
            assert(seal_accepts(plain_chunks@[j]@.len() as int));
        }
        assert forall|k: int| 0 <= k < rotated_messages(old_db, tg_id).len() implies match decrypt_outcome(
            old_key@,
            #[trigger] rotated_messages(old_db, tg_id)[k].1,
        ) {
            Ok(p) => seal_accepts(p.len() as int),
            Err(_) => true,
        } by {
            assert(roles@[k]@ == messages@[k].role@ && message_blobs@[k]@ == messages@[k].blob@);
            assert(rotated_messages(old_db, tg_id)[k] == (messages@[k].role@, messages@[k].blob@));
            assert(seal_accepts(plain_messages@[k]@.len() as int));
        }
    }

    // 4. Write everything in one transaction.
    let record = UserRow { tg_id, pw_hash: new_pw_hash, verifier_salt: new_verifier_salt, key_salt: new_key_salt };
    proof {
        assert(seqs@.no_duplicates()) by {
            assert forall|i: int, j: int| 0 <= i < seqs@.len() && 0 <= j < seqs@.len() && i != j implies seqs@[i]
                != seqs@[j] by {
                if i < j {
                    assert(seqs@[i] < seqs@[j]);
                } else {
                    assert(seqs@[j] < seqs@[i]);
                }
            }
        }
        assert forall|i: int| 0 <= i < seqs@.len() implies #[trigger] has_chunk(old_db, tg_id, seqs@[i]) by {}
    }
    match state.db.rewrite_user_data(
        tg_id,
        seqs.as_slice(),
        sealed_chunks.as_slice(),
        roles.as_slice(),
        sealed_messages.as_slice(),
        &record,
    ) {
        Ok(()) => {},
        Err(e) => return Err(KeyError::Db(e)),
    }

    // 5. Load the new key.
    let ghost new_key_bytes = new_key@;
    let ghost new_db = state.db@;
    state.set_key(tg_id, new_key);
    proof {
        assert(chunks_reencrypted(old_db.chunks, new_db.chunks, tg_id, old_key@, new_key_bytes)) by {
            assert forall|k: (i64, i64)| #[trigger] old_db.chunks.contains_key(k) && k.0 != tg_id implies new_db.chunks[k]
                == old_db.chunks[k] by {
                assert(new_db.chunks.contains_key(k));
            }
            assert forall|s: i64| #[trigger] old_db.chunks.contains_key((tg_id, s)) implies decrypt_outcome(
                new_key_bytes,
                new_db.chunks[(tg_id, s)],
            ) == decrypt_outcome(old_key@, old_db.chunks[(tg_id, s)]) by {
                assert(has_chunk(old_db, tg_id, s));
                assert(seqs@.contains(s));
                let j = choose|j: int| 0 <= j < seqs@.len() && seqs@[j] == s;
                assert(new_db.chunks[(tg_id, seqs@[j])] == sealed_chunks@[j]@);
                assert(chunk_blobs@[j]@ == chunks@[j].blob@);
            }
        }
        assert(messages_reencrypted(
            rotated_messages(old_db, tg_id),
            messages_of(new_db.messages, tg_id),
            old_key@,
            new_key_bytes,
        )) by {
            let rewritten = crate::db::rewritten_messages(roles@, sealed_messages@);
            assert forall|k: int| 0 <= k < rotated_messages(old_db, tg_id).len() implies (#[trigger] rewritten[k]).0
                == rotated_messages(old_db, tg_id)[k].0 && decrypt_outcome(new_key_bytes, rewritten[k].1)
                == decrypt_outcome(old_key@, rotated_messages(old_db, tg_id)[k].1) by {
                assert(rotated_messages(old_db, tg_id)[k] == (messages@[k].role@, messages@[k].blob@));
            }
        }
        assert(state.db@.users[tg_id] == crate::db::user_record(record));
    }
    Ok(())
}

/// Restoring after a restart: once a key was set, dropping it from memory
/// (as a restart does) and setting it again with the same passphrase gives
/// back the very same key and leaves the database as it was.
pub proof fn law_restore_after_memory_wipe(s0: AppState, s1: AppState, s2: AppState, s3: AppState, tg_id: i64, passphrase: Seq<u8>)
    requires
        set_key_succeeded(s0, s1, tg_id, passphrase),
        s2.db == s1.db,
        s2.key_map() == s1.key_map().remove(tg_id),
        set_key_succeeded(s2, s3, tg_id, passphrase),
    ensures
        s3.key_map()[tg_id] == s1.key_map()[tg_id],
        same_db(s3.db@, s1.db@),
        s3.key_map() == s1.key_map(),
{
    assert(s1.db@.users.contains_key(tg_id));
    assert(s3.key_map() =~= s1.key_map());
}

/// A key set with a passphrase is exactly what verifying that passphrase
/// later yields: `verify_and_derive` succeeds with the key held in memory.
pub proof fn law_set_then_verify(s0: AppState, s1: AppState, tg_id: i64, passphrase: Seq<u8>)
    requires
        set_key_succeeded(s0, s1, tg_id, passphrase),
    ensures
        unlocked_key(s1.db@, tg_id, passphrase) == Some(s1.key_map()[tg_id]),
{
}

/// After a full wipe, setting a key starts from a clean slate: a fresh record
/// and no chunks or messages of the user.
pub proof fn law_fresh_start_after_delete(s0: AppState, s1: AppState, s2: AppState, tg_id: i64, passphrase: Seq<u8>)
    requires
        user_deleted(s0, s1, tg_id),
        set_key_succeeded(s1, s2, tg_id, passphrase),
    ensures
        user_added(s1.db@, s2.db@, tg_id, passphrase),
        forall|seq: i64| !has_chunk(s2.db@, tg_id, seq),
        messages_of(s2.db@.messages, tg_id).len() == 0,
        s2.key_map().contains_key(tg_id),
{
    lemma_messages_without_has_none(s0.db@.messages, tg_id);
}

/// A key change can be repeated: after one, the new passphrase unlocks the
/// key held in memory, all the user's data decrypts under it, and a further
/// change to any passphrase Argon2 takes can go through (storage failures
/// aside).
pub proof fn law_key_change_repeats(
    s0: AppState,
    s1: AppState,
    tg_id: i64,
    old_passphrase: Seq<u8>,
    new_passphrase: Seq<u8>,
    next_passphrase: Seq<u8>,
)
    requires
        key_changed(s0, s1, tg_id, old_passphrase, new_passphrase),
        next_passphrase.len() <= 0xFFFF_FFFF,
    ensures
        unlocked_key(s1.db@, tg_id, new_passphrase) == Some(s1.key_map()[tg_id]),
        user_data_decrypts(s1.db@, tg_id, s1.key_map()[tg_id]),
        rotation_possible(s1.db@, tg_id, new_passphrase, next_passphrase),
{
    let d0 = s0.db@;
    let d1 = s1.db@;
    let ok = unlocked_key(d0, tg_id, old_passphrase)->Some_0;
    let nk = s1.key_map()[tg_id];
    assert forall|s: i64| #[trigger] has_chunk(d1, tg_id, s) implies decrypt_outcome(nk, d1.chunks[(tg_id, s)]) is Ok
        && match decrypt_outcome(nk, d1.chunks[(tg_id, s)]) {
        Ok(p) => seal_accepts(p.len() as int),
        Err(_) => true,
    } by {
        assert(d0.chunks.dom().contains((tg_id, s)));
        assert(has_chunk(d0, tg_id, s));
    }
    let old_msgs = rotated_messages(d0, tg_id);
    let new_msgs = messages_of(d1.messages, tg_id);
    assert(rotated_messages(d1, tg_id) == new_msgs);
    assert forall|i: int| 0 <= i < rotated_messages(d1, tg_id).len() implies decrypt_outcome(
        nk,
        #[trigger] rotated_messages(d1, tg_id)[i].1,
    ) is Ok && match decrypt_outcome(nk, rotated_messages(d1, tg_id)[i].1) {
        Ok(p) => seal_accepts(p.len() as int),
        Err(_) => true,
    } by {
        assert(new_msgs[i].0 == old_msgs[i].0);
        assert(decrypt_outcome(ok, old_msgs[i].1) is Ok);
    }
}

/// After a key change the old passphrase no longer verifies: checking it
/// finds a mismatch, which `verify_and_derive`, `set_key` and `change_key`
/// answer with `KeyError::WrongPassphrase` (storage failures aside). This
/// fails only where Argon2 gives the two passphrases the same verifier on
/// the new salt, as it does when they are equal.
pub proof fn law_old_passphrase_refused_after_change(
    s0: AppState,
    s1: AppState,
    tg_id: i64,
    old_passphrase: Seq<u8>,
    new_passphrase: Seq<u8>,
)
    requires
        key_changed(s0, s1, tg_id, old_passphrase, new_passphrase),
        argon2_accepts(old_passphrase, s1.db@.users[tg_id].1),
        verifier_digest(old_passphrase, s1.db@.users[tg_id].1) != verifier_digest(
            new_passphrase,
            s1.db@.users[tg_id].1,
        ),
    ensures
        s1.db@.users.contains_key(tg_id),
        mismatched(s1.db@.users[tg_id], old_passphrase),
        unlocked_key(s1.db@, tg_id, old_passphrase) is None,
{
}

} // verus!
