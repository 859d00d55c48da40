use k1f_bot::crypto::{self, SALT_LEN};
use k1f_bot::db::{DbError, DbHandle, UserRow};

fn tmp_db() -> DbHandle {
    DbHandle::open(":memory:").unwrap()
}

fn make_user(db: &mut DbHandle, tg_id: i64) -> UserRow {
    let row = UserRow {
        tg_id,
        pw_hash: vec![0u8; 32],
        verifier_salt: vec![1u8; SALT_LEN],
        key_salt: vec![2u8; SALT_LEN],
    };
    db.insert_user(&row).unwrap();
    row
}

#[test]
fn inserts_and_reads_user() {
    let mut db = tmp_db();
    make_user(&mut db, 42);
    let got = db.get_user(42).unwrap().unwrap();
    assert_eq!(got.tg_id, 42);
    assert_eq!(got.key_salt, vec![2u8; SALT_LEN]);
}

#[test]
fn chunks_are_ordered_by_seq() {
    let mut db = tmp_db();
    let key = crypto::derive_key(b"pw", &[9u8; SALT_LEN]).unwrap();
    make_user(&mut db, 7);

    for text in ["alpha", "beta", "gamma"] {
        let seq = db.next_seq(7).unwrap();
        let blob = crypto::encrypt(&key, text.as_bytes()).unwrap();
        db.insert_chunk(7, seq, &blob).unwrap();
    }

    let seqs = db.chunk_seqs(7).unwrap();
    assert_eq!(seqs, vec![1, 2, 3]);

    let chunks = db.chunks(7).unwrap();
    let joined: Vec<String> = chunks
        .iter()
        .map(|c| String::from_utf8(crypto::decrypt(&key, &c.blob).unwrap()).unwrap())
        .collect();
    assert_eq!(joined, vec!["alpha", "beta", "gamma"]);
}

#[test]
fn delete_chunk_keeps_other_seqs() {
    let mut db = tmp_db();
    let key = crypto::derive_key(b"pw", &[9u8; SALT_LEN]).unwrap();
    make_user(&mut db, 8);
    for _ in 0..3 {
        let seq = db.next_seq(8).unwrap();
        let blob = crypto::encrypt(&key, b"x").unwrap();
        db.insert_chunk(8, seq, &blob).unwrap();
    }
    assert!(db.delete_chunk(8, 2).unwrap());
    assert_eq!(db.chunk_seqs(8).unwrap(), vec![1, 3]);
    assert!(!db.delete_chunk(8, 99).unwrap());
}

#[test]
fn recent_messages_respects_limit_and_order() {
    let mut db = tmp_db();
    let key = crypto::derive_key(b"pw", &[9u8; SALT_LEN]).unwrap();
    make_user(&mut db, 9);
    for i in 0..5u32 {
        let blob = crypto::encrypt(&key, format!("m{i}").as_bytes()).unwrap();
        db.append_message(9, "user", &blob).unwrap();
    }
    let last2 = db.recent_messages(9, 2).unwrap();
    assert_eq!(last2.len(), 2);
    let texts: Vec<String> = last2
        .iter()
        .map(|m| String::from_utf8(crypto::decrypt(&key, &m.blob).unwrap()).unwrap())
        .collect();
    assert_eq!(texts, vec!["m3", "m4"]);
}

#[test]
fn clear_messages_wipes_history() {
    let mut db = tmp_db();
    let key = crypto::derive_key(b"pw", &[9u8; SALT_LEN]).unwrap();
    make_user(&mut db, 10);
    let blob = crypto::encrypt(&key, b"hi").unwrap();
    db.append_message(10, "user", &blob).unwrap();
    db.clear_messages(10).unwrap();
    assert!(db.recent_messages(10, 100).unwrap().is_empty());
}

#[test]
fn duplicate_user_and_orphan_rows_are_refused() {
    let mut db = tmp_db();
    make_user(&mut db, 1);
    let again = UserRow { tg_id: 1, pw_hash: vec![9], verifier_salt: vec![9], key_salt: vec![9] };
    assert!(matches!(db.insert_user(&again), Err(DbError::Sqlite(_))));
    assert_eq!(db.get_user(1).unwrap().unwrap().pw_hash, vec![0u8; 32]);
    // No user 2: foreign keys refuse chunks and messages for it.
    assert!(db.insert_chunk(2, 1, &[0u8; 20]).is_err());
    assert!(db.append_message(2, "user", &[0u8; 20]).is_err());
    // A second chunk with the same number is refused.
    db.insert_chunk(1, 1, &[0u8; 20]).unwrap();
    assert!(db.insert_chunk(1, 1, &[1u8; 20]).is_err());
}

#[test]
fn update_chunk_and_user_verifier() {
    let mut db = tmp_db();
    make_user(&mut db, 3);
    assert_eq!(db.next_seq(3).unwrap(), 1);
    db.insert_chunk(3, 5, &[7u8; 30]).unwrap();
    assert_eq!(db.next_seq(3).unwrap(), 6);
    db.update_chunk(3, 5, &[8u8; 40]).unwrap();
    assert_eq!(db.chunks(3).unwrap()[0].blob, vec![8u8; 40]);
    assert!(matches!(
        db.update_chunk(3, 6, &[8u8; 40]),
        Err(DbError::ChunkNotFound { tg_id: 3, seq: 6 })
    ));
    let row = UserRow { tg_id: 3, pw_hash: vec![5; 32], verifier_salt: vec![6; 16], key_salt: vec![7; 16] };
    db.update_user_verifier(&row).unwrap();
    let got = db.get_user(3).unwrap().unwrap();
    assert_eq!(got.pw_hash, vec![5; 32]);
    assert_eq!(got.verifier_salt, vec![6; 16]);
    assert_eq!(got.key_salt, vec![7; 16]);
    assert!(db.get_user(4).unwrap().is_none());
}

#[test]
fn delete_user_cascades_and_keeps_others() {
    let mut db = tmp_db();
    make_user(&mut db, 1);
    make_user(&mut db, 2);
    db.insert_chunk(1, 1, &[1u8; 20]).unwrap();
    db.insert_chunk(2, 1, &[2u8; 20]).unwrap();
    db.append_message(1, "user", &[1u8; 20]).unwrap();
    db.append_message(2, "assistant", &[2u8; 20]).unwrap();
    assert!(db.delete_user(1).unwrap());
    assert!(!db.delete_user(1).unwrap());
    assert!(db.chunk_seqs(1).unwrap().is_empty());
    assert!(db.recent_messages(1, 10).unwrap().is_empty());
    assert_eq!(db.chunk_seqs(2).unwrap(), vec![1]);
    let msgs = db.recent_messages(2, 10).unwrap();
    assert_eq!(msgs.len(), 1);
    assert_eq!(msgs[0].role, "assistant");
    assert_eq!(msgs[0].blob, vec![2u8; 20]);
}

#[test]
fn storage_errors_have_messages() {
    let mut db = tmp_db();
    make_user(&mut db, 1);
    let again = UserRow { tg_id: 1, pw_hash: vec![9], verifier_salt: vec![9], key_salt: vec![9] };
    let err = db.insert_user(&again).unwrap_err();
    let text = err.message();
    assert!(text.starts_with("SQLite error: "), "{text}");
    assert!(text.len() > "SQLite error: ".len());
    let missing = db.update_chunk(1, 5, &[0u8; 20]).unwrap_err();
    assert!(matches!(missing, DbError::ChunkNotFound { tg_id: 1, seq: 5 }));
    assert_eq!(missing.message(), "Context chunk 5 not found for user 1");
}

#[test]
fn next_seq_follows_the_highest_number_even_below_zero() {
    let mut db = tmp_db();
    make_user(&mut db, 8);
    db.insert_chunk(8, -5, &[1u8; 20]).unwrap();
    assert_eq!(db.next_seq(8).unwrap(), -4);
}

#[test]
fn rewrite_user_data_replaces_blobs_history_and_record() {
    let mut db = tmp_db();
    make_user(&mut db, 6);
    make_user(&mut db, 9);
    db.insert_chunk(6, 1, &[1u8; 20]).unwrap();
    db.insert_chunk(6, 2, &[2u8; 20]).unwrap();
    db.insert_chunk(9, 1, &[3u8; 20]).unwrap();
    db.append_message(6, "user", &[4u8; 20]).unwrap();
    db.append_message(9, "user", &[5u8; 20]).unwrap();

    let record = UserRow { tg_id: 6, pw_hash: vec![9; 32], verifier_salt: vec![8; 16], key_salt: vec![7; 16] };
    let roles = vec!["user".to_string(), "assistant".to_string()];
    db.rewrite_user_data(6, &[2, 1], &[vec![22u8; 30], vec![11u8; 30]], &roles, &[vec![44u8; 25], vec![55u8; 25]], &record)
        .unwrap();

    let chunks = db.chunks(6).unwrap();
    assert_eq!(chunks.len(), 2);
    assert_eq!(chunks[0].blob, vec![11u8; 30]);
    assert_eq!(chunks[1].blob, vec![22u8; 30]);
    let msgs = db.recent_messages(6, 10).unwrap();
    assert_eq!(msgs.len(), 2);
    assert_eq!(msgs[0].role, "user");
    assert_eq!(msgs[0].blob, vec![44u8; 25]);
    assert_eq!(msgs[1].role, "assistant");
    assert_eq!(msgs[1].blob, vec![55u8; 25]);
    assert_eq!(db.get_user(6).unwrap().unwrap().pw_hash, vec![9; 32]);
    // The other user is untouched.
    assert_eq!(db.chunks(9).unwrap()[0].blob, vec![3u8; 20]);
    assert_eq!(db.recent_messages(9, 10).unwrap()[0].blob, vec![5u8; 20]);
    assert_eq!(db.get_user(9).unwrap().unwrap().pw_hash, vec![0u8; 32]);
}
