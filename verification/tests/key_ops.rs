use k1f_bot::crypto::{decrypt, encrypt};
use k1f_bot::db::DbHandle;
use k1f_bot::key_ops::{change_key, constant_time_eq, delete_user, set_key, verify_and_derive, verifier_hash, KeyError};
use k1f_bot::state::AppState;

fn fresh_state() -> AppState {
    AppState::new(DbHandle::open(":memory:").unwrap())
}

#[test]
fn set_key_then_verify_round_trip() {
    let mut state = fresh_state();
    set_key(&mut state, 1, b"pass-1").unwrap();
    let derived = verify_and_derive(&state.db, 1, b"pass-1").unwrap();
    let matches = state.with_key(1, |mk| mk.as_bytes() == derived.as_bytes());
    assert_eq!(matches, Some(true));
}

#[test]
fn delete_user_wipes_everything_and_allows_fresh_set() {
    let mut state = fresh_state();
    set_key(&mut state, 9, b"old-pass").unwrap();
    let key = state.with_key(9, |k| k.clone()).unwrap();

    let blob = encrypt(&key, b"context-data").unwrap();
    state.db.insert_chunk(9, 1, &blob).unwrap();
    state
        .db
        .append_message(9, "user", &encrypt(&key, b"hi").unwrap())
        .unwrap();
    assert_eq!(state.db.chunk_seqs(9).unwrap().len(), 1);
    assert_eq!(state.db.recent_messages(9, 100).unwrap().len(), 1);

    assert!(delete_user(&mut state, 9).unwrap());
    assert!(!state.has_key(9));
    assert!(state.db.get_user(9).unwrap().is_none());
    assert!(state.db.chunk_seqs(9).unwrap().is_empty());
    assert!(state.db.recent_messages(9, 100).unwrap().is_empty());

    set_key(&mut state, 9, b"brand-new-pass").unwrap();
    assert!(state.has_key(9));
    assert!(state.db.chunk_seqs(9).unwrap().is_empty());

    assert!(delete_user(&mut state, 9).unwrap());
    assert!(!delete_user(&mut state, 9).unwrap());
}

#[test]
fn wrong_passphrase_rejected() {
    let mut state = fresh_state();
    set_key(&mut state, 2, b"correct").unwrap();
    let err = verify_and_derive(&state.db, 2, b"wrong").unwrap_err();
    assert!(matches!(err, KeyError::WrongPassphrase));
}

#[test]
fn set_key_restores_with_same_passphrase_after_memory_wipe() {
    let mut state = fresh_state();
    set_key(&mut state, 3, b"original-passphrase").unwrap();
    let original_key = state.with_key(3, |k| k.clone()).unwrap();

    assert!(state.clear_key(3));
    assert!(!state.has_key(3));

    let err = set_key(&mut state, 3, b"WRONG-passphrase").unwrap_err();
    assert!(matches!(err, KeyError::WrongPassphrase));
    assert!(!state.has_key(3));

    set_key(&mut state, 3, b"original-passphrase").unwrap();
    assert!(state.has_key(3));
    let restored = state.with_key(3, |k| k.clone()).unwrap();
    assert_eq!(restored.as_bytes(), original_key.as_bytes());
}

fn seeded_rotation(state: &mut AppState) -> (k1f_bot::crypto::SecretKey, k1f_bot::crypto::SecretKey) {
    set_key(state, 4, b"old").unwrap();
    let old_key = state.with_key(4, |k| k.clone()).unwrap();

    let seq1 = state.db.next_seq(4).unwrap();
    state
        .db
        .insert_chunk(4, seq1, &encrypt(&old_key, b"chunk-one").unwrap())
        .unwrap();
    let seq2 = state.db.next_seq(4).unwrap();
    state
        .db
        .insert_chunk(4, seq2, &encrypt(&old_key, b"chunk-two").unwrap())
        .unwrap();
    state
        .db
        .append_message(4, "user", &encrypt(&old_key, b"hello").unwrap())
        .unwrap();

    change_key(state, 4, b"old", b"new").unwrap();
    let new_key = state.with_key(4, |k| k.clone()).unwrap();
    (old_key, new_key)
}

#[test]
fn change_key_reencrypts_under_new_key() {
    let mut state = fresh_state();
    let (old_key, new_key) = seeded_rotation(&mut state);

    let chunks = state.db.chunks(4).unwrap();
    let texts: Vec<String> = chunks
        .iter()
        .map(|c| String::from_utf8(decrypt(&new_key, &c.blob).unwrap()).unwrap())
        .collect();
    assert_eq!(texts, vec!["chunk-one", "chunk-two"]);

    assert!(decrypt(&old_key, &chunks[0].blob).is_err());

    let msgs = state.db.recent_messages(4, u32::MAX).unwrap();
    assert_eq!(msgs.len(), 1);
    assert_eq!(
        String::from_utf8(decrypt(&new_key, &msgs[0].blob).unwrap()).unwrap(),
        "hello"
    );
}

#[test]
fn change_key_replaces_the_verifier_record() {
    let mut state = fresh_state();
    let verifier_salt = vec![3u8; 16];
    let pw_hash = verifier_hash(b"old", &verifier_salt).unwrap();
    let row = k1f_bot::db::UserRow { tg_id: 4, pw_hash, verifier_salt, key_salt: vec![4u8; 16] };
    state.db.insert_user(&row).unwrap();
    change_key(&mut state, 4, b"old", b"new").unwrap();
    let record = state.db.get_user(4).unwrap().unwrap();
    assert_ne!(record.pw_hash, row.pw_hash);
    assert_ne!(record.verifier_salt, row.verifier_salt);
    assert_ne!(record.key_salt, row.key_salt);
    assert_eq!(record.verifier_salt.len(), 16);
    assert!(state.has_key(4));
    // The old passphrase no longer verifies.
    assert!(matches!(verify_and_derive(&state.db, 4, b"old"), Err(KeyError::WrongPassphrase)));
}

#[test]
fn change_key_with_wrong_old_passphrase_fails_and_preserves_data() {
    let mut state = fresh_state();
    set_key(&mut state, 5, b"old").unwrap();
    let old_key = state.with_key(5, |k| k.clone()).unwrap();
    state
        .db
        .insert_chunk(5, 1, &encrypt(&old_key, b"keep-me").unwrap())
        .unwrap();

    let err = change_key(&mut state, 5, b"WRONG", b"new").unwrap_err();
    assert!(matches!(err, KeyError::WrongPassphrase));

    let chunk = state.db.chunks(5).unwrap();
    assert_eq!(
        String::from_utf8(decrypt(&old_key, &chunk[0].blob).unwrap()).unwrap(),
        "keep-me"
    );
}

#[test]
fn verify_without_record_is_no_user() {
    let state = fresh_state();
    assert!(matches!(verify_and_derive(&state.db, 77, b"x"), Err(KeyError::NoUser(77))));
}

#[test]
fn change_key_with_undecryptable_chunk_changes_nothing() {
    let mut state = fresh_state();
    set_key(&mut state, 6, b"old").unwrap();
    let old_key = state.with_key(6, |k| k.clone()).unwrap();
    state.db.insert_chunk(6, 1, &encrypt(&old_key, b"fine").unwrap()).unwrap();
    state.db.insert_chunk(6, 2, &[0u8; 40]).unwrap();
    let before = state.db.get_user(6).unwrap().unwrap();
    assert!(matches!(change_key(&mut state, 6, b"old", b"new"), Err(KeyError::Crypto(_))));
    let after = state.db.get_user(6).unwrap().unwrap();
    assert_eq!(before.pw_hash, after.pw_hash);
    assert_eq!(before.key_salt, after.key_salt);
    let kept = state.with_key(6, |k| k.clone()).unwrap();
    assert_eq!(kept.as_bytes(), old_key.as_bytes());
    assert_eq!(state.db.chunks(6).unwrap()[1].blob, vec![0u8; 40]);
    assert!(verify_and_derive(&state.db, 6, b"old").is_ok());
}

#[test]
fn constant_time_eq_compares_contents() {
    assert!(constant_time_eq(b"abc", b"abc"));
    assert!(!constant_time_eq(b"abc", b"abd"));
    assert!(!constant_time_eq(b"abc", b"ab"));
    assert!(constant_time_eq(b"", b""));
}

#[test]
fn verifier_differs_from_key_derivation() {
    let salt = [3u8; 16];
    let v = verifier_hash(b"pw", &salt).unwrap();
    let k = k1f_bot::crypto::derive_key(b"pw", &salt).unwrap();
    assert_eq!(v.len(), 32);
    assert_ne!(v.as_slice(), k.as_bytes());
}
