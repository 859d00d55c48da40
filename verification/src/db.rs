//! SQLite storage for per-user encrypted data.
//!
//! Schema: `users`, `context_chunks`, `messages` (see [`MIGRATION_SQL`]).
//! All blobs are stored in the shape produced by [`crate::crypto::encrypt`]
//! (`nonce || ciphertext`, kept in two columns); this module never sees
//! plaintext.
//!
//! The store is modelled by three tables: users by telegram id, context chunks
//! by `(telegram id, seq)`, and the message log in insertion order. Every
//! statement either fails and leaves the tables as they were, or has exactly
//! the effect that its contract states.
use rusqlite::OptionalExtension;
use vstd::prelude::*;

use crate::crypto::NONCE_LEN;
use crate::text::{push_signed_decimal, push_str, signed_decimal};

verus! {

/// The schema, run whenever a database is opened.
pub const MIGRATION_SQL: &'static str = "
PRAGMA journal_mode = WAL;
PRAGMA foreign_keys = ON;

CREATE TABLE IF NOT EXISTS users (
    tg_id          INTEGER PRIMARY KEY,
    pw_hash        BLOB    NOT NULL,
    verifier_salt  BLOB    NOT NULL,
    key_salt       BLOB    NOT NULL
);

CREATE TABLE IF NOT EXISTS context_chunks (
    tg_id       INTEGER NOT NULL REFERENCES users(tg_id) ON DELETE CASCADE,
    seq         INTEGER NOT NULL,
    nonce       BLOB    NOT NULL,
    ciphertext  BLOB    NOT NULL,
    updated_at  TEXT    NOT NULL DEFAULT (datetime('now')),
    PRIMARY KEY (tg_id, seq)
);

CREATE TABLE IF NOT EXISTS messages (
    id          INTEGER PRIMARY KEY AUTOINCREMENT,
    tg_id       INTEGER NOT NULL REFERENCES users(tg_id) ON DELETE CASCADE,
    role        TEXT    NOT NULL,
    nonce       BLOB    NOT NULL,
    ciphertext  BLOB    NOT NULL,
    created_at  TEXT    NOT NULL DEFAULT (datetime('now'))
);
CREATE INDEX IF NOT EXISTS idx_messages_tg ON messages(tg_id, id);
";

#[verifier::external_type_specification]
#[verifier::external_body]
pub struct ExSqliteError(rusqlite::Error);

/// Storage errors.
#[derive(Debug)]
pub enum DbError {
    /// SQLite refused or failed a statement.
    Sqlite(rusqlite::Error),
    /// `update_chunk` found no chunk with that number.
    ChunkNotFound { tg_id: i64, seq: i64 },
    /// A change made in a transaction failed, and SQLite then failed to roll
    /// the transaction back: what the tables hold is not known.
    RollbackFailed(rusqlite::Error),
}

/// `Display` of a SQLite error (`ToString::to_string` on `rusqlite::Error`).
/// Nothing is claimed of the text.
#[verifier::external_body]
fn sqlite_error_text(e: &rusqlite::Error) -> String {
    e.to_string()
}

/// Whether a text is the message of a storage error: `SQLite error: ` and
/// SQLite's own words, or which chunk was missing.
pub open spec fn is_db_error_text(e: DbError, s: Seq<char>) -> bool {
    match e {
        DbError::Sqlite(_) => "SQLite error: "@.is_prefix_of(s),
        DbError::RollbackFailed(_) => "SQLite error: rollback failed: "@.is_prefix_of(s),
        DbError::ChunkNotFound { tg_id, seq } => s == "Context chunk "@ + signed_decimal(seq as int)
            + " not found for user "@ + signed_decimal(tg_id as int),
    }
}

impl DbError {
    /// The error's message.
    pub fn message(&self) -> (s: String)
        ensures
            is_db_error_text(*self, s@),
    {
        match self {
            DbError::Sqlite(e) => {
                let mut s = String::from_str("SQLite error: ");
                let detail = sqlite_error_text(e);
                push_str(&mut s, detail.as_str());
                assert(s@.take("SQLite error: "@.len() as int) == "SQLite error: "@);
                s
            },
            DbError::RollbackFailed(e) => {
                let mut s = String::from_str("SQLite error: rollback failed: ");
                let detail = sqlite_error_text(e);
                push_str(&mut s, detail.as_str());
                assert(s@.take("SQLite error: rollback failed: "@.len() as int) == "SQLite error: rollback failed: "@);
                s
            },
            DbError::ChunkNotFound { tg_id, seq } => {
                let mut s = String::from_str("Context chunk ");
                push_signed_decimal(&mut s, *seq);
                push_str(&mut s, " not found for user ");
                push_signed_decimal(&mut s, *tg_id);
                s
            },
        }
    }
}

/// Persisted per-user record. `pw_hash` is an Argon2id verifier hash of the
/// passphrase over a verifier salt (NOT the encryption key).
#[derive(Debug, Clone)]
pub struct UserRow {
    pub tg_id: i64,
    pub pw_hash: Vec<u8>,
    pub verifier_salt: Vec<u8>,
    pub key_salt: Vec<u8>,
}

/// One encrypted context chunk, in order of `seq`.
#[derive(Debug, Clone)]
pub struct ChunkRow {
    pub tg_id: i64,
    pub seq: i64,
    pub blob: Vec<u8>,
}

/// One encrypted message in the dialogue history.
#[derive(Debug, Clone)]
pub struct MessageRow {
    pub tg_id: i64,
    pub role: String,
    pub blob: Vec<u8>,
}

#[verifier::external_type_specification]
#[verifier::external_body]
pub struct ExConnection(rusqlite::Connection);

/// A handle to the database.
pub struct DbHandle {
    conn: rusqlite::Connection,
    location: String,
}

// ---------------------------------------------------------------------------
// The stored tables
// ---------------------------------------------------------------------------

/// The `users` table: telegram id to `(pw_hash, verifier_salt, key_salt)`.
pub uninterp spec fn stored_users(conn: rusqlite::Connection) -> Map<i64, (Seq<u8>, Seq<u8>, Seq<u8>)>;

/// The `context_chunks` table: `(telegram id, seq)` to `nonce || ciphertext`.
pub uninterp spec fn stored_chunks(conn: rusqlite::Connection) -> Map<(i64, i64), Seq<u8>>;

/// The `messages` table in id order: `(telegram id, role, nonce || ciphertext)`.
pub uninterp spec fn stored_messages(conn: rusqlite::Connection) -> Seq<(i64, Seq<char>, Seq<u8>)>;

/// The `users` table as it was when the open transaction began.
pub uninterp spec fn saved_users(conn: rusqlite::Connection) -> Map<i64, (Seq<u8>, Seq<u8>, Seq<u8>)>;

/// The `context_chunks` table as it was when the open transaction began.
pub uninterp spec fn saved_chunks(conn: rusqlite::Connection) -> Map<(i64, i64), Seq<u8>>;

/// The `messages` table as it was when the open transaction began.
pub uninterp spec fn saved_messages(conn: rusqlite::Connection) -> Seq<(i64, Seq<char>, Seq<u8>)>;

/// The three tables of a database.
pub struct DbModel {
    pub users: Map<i64, (Seq<u8>, Seq<u8>, Seq<u8>)>,
    pub chunks: Map<(i64, i64), Seq<u8>>,
    pub messages: Seq<(i64, Seq<char>, Seq<u8>)>,
}

impl DbHandle {
    /// Where the database lives: the path of its file, or `:memory:` for a
    /// database held in memory alone.
    pub closed spec fn location(&self) -> Seq<char> {
        self.location@
    }

    /// The tables as they were when the open transaction began.
    pub closed spec fn saved(&self) -> DbModel {
        DbModel {
            users: saved_users(self.conn),
            chunks: saved_chunks(self.conn),
            messages: saved_messages(self.conn),
        }
    }
}

impl View for DbHandle {
    type V = DbModel;

    closed spec fn view(&self) -> DbModel {
        DbModel {
            users: stored_users(self.conn),
            chunks: stored_chunks(self.conn),
            messages: stored_messages(self.conn),
        }
    }
}

/// The record of a user row: `(pw_hash, verifier_salt, key_salt)`.
pub open spec fn user_record(row: UserRow) -> (Seq<u8>, Seq<u8>, Seq<u8>) {
    (row.pw_hash@, row.verifier_salt@, row.key_salt@)
}

/// The chunks table without the user's chunks.
pub open spec fn chunks_without(chunks: Map<(i64, i64), Seq<u8>>, tg_id: i64) -> Map<(i64, i64), Seq<u8>> {
    Map::new(|k: (i64, i64)| chunks.contains_key(k) && k.0 != tg_id, |k: (i64, i64)| chunks[k])
}

/// The message log without the user's messages.
pub open spec fn messages_without(msgs: Seq<(i64, Seq<char>, Seq<u8>)>, tg_id: i64) -> Seq<(i64, Seq<char>, Seq<u8>)>
    decreases msgs.len(),
{
    if msgs.len() == 0 {
        msgs
    } else {
        let rest = messages_without(msgs.drop_last(), tg_id);
        if msgs.last().0 == tg_id {
            rest
        } else {
            rest.push(msgs.last())
        }
    }
}

/// The user's messages in log order, as `(role, blob)`.
pub open spec fn messages_of(msgs: Seq<(i64, Seq<char>, Seq<u8>)>, tg_id: i64) -> Seq<(Seq<char>, Seq<u8>)>
    decreases msgs.len(),
{
    if msgs.len() == 0 {
        Seq::empty()
    } else {
        let rest = messages_of(msgs.drop_last(), tg_id);
        if msgs.last().0 == tg_id {
            rest.push((msgs.last().1, msgs.last().2))
        } else {
            rest
        }
    }
}

/// Removing a user's messages leaves none of them behind.
pub proof fn lemma_messages_without_has_none(msgs: Seq<(i64, Seq<char>, Seq<u8>)>, tg_id: i64)
    ensures
        messages_of(messages_without(msgs, tg_id), tg_id).len() == 0,
        messages_without(messages_without(msgs, tg_id), tg_id) == messages_without(msgs, tg_id),
    decreases msgs.len(),
{
    if msgs.len() > 0 {
        lemma_messages_without_has_none(msgs.drop_last(), tg_id);
        let rest = messages_without(msgs.drop_last(), tg_id);
        if msgs.last().0 != tg_id {
            assert(rest.push(msgs.last()).drop_last() =~= rest);
        }
    }
}

/// Appending a message of the user extends the user's messages and leaves
/// the others alone.
pub proof fn lemma_push_message(msgs: Seq<(i64, Seq<char>, Seq<u8>)>, m: (i64, Seq<char>, Seq<u8>), tg_id: i64)
    requires
        m.0 == tg_id,
    ensures
        messages_of(msgs.push(m), tg_id) == messages_of(msgs, tg_id).push((m.1, m.2)),
        messages_without(msgs.push(m), tg_id) == messages_without(msgs, tg_id),
{
    assert(msgs.push(m).drop_last() =~= msgs);
}

/// The last `n` elements of a sequence (all of it when it is shorter).
pub open spec fn last_n<A>(s: Seq<A>, n: int) -> Seq<A> {
    if n >= s.len() {
        s
    } else {
        s.skip(s.len() - n)
    }
}

/// Whether the user has a chunk numbered `seq`.
pub open spec fn has_chunk(db: DbModel, tg_id: i64, seq: i64) -> bool {
    db.chunks.contains_key((tg_id, seq))
}

/// Whether `seqs` lists the user's chunk numbers in increasing order.
pub open spec fn lists_chunk_seqs(db: DbModel, tg_id: i64, seqs: Seq<i64>) -> bool {
    &&& forall|i: int, j: int| 0 <= i < j < seqs.len() ==> seqs[i] < seqs[j]
    &&& forall|i: int| 0 <= i < seqs.len() ==> #[trigger] has_chunk(db, tg_id, seqs[i])
    &&& forall|s: i64| #[trigger] has_chunk(db, tg_id, s) ==> seqs.contains(s)
}

/// The user's chunk numbers in increasing order.
pub open spec fn user_chunk_seqs(db: DbModel, tg_id: i64) -> Seq<i64> {
    choose|seqs: Seq<i64>| lists_chunk_seqs(db, tg_id, seqs)
}

/// The blobs of the user's chunks, in increasing order of their numbers.
pub open spec fn user_chunk_blobs(db: DbModel, tg_id: i64) -> Seq<Seq<u8>> {
    user_chunk_seqs(db, tg_id).map_values(|s: i64| db.chunks[(tg_id, s)])
}

/// Two increasing sequences with the same elements are the same sequence.
pub proof fn lemma_increasing_unique(a: Seq<i64>, b: Seq<i64>)
    requires
        forall|i: int, j: int| 0 <= i < j < a.len() ==> a[i] < a[j],
        forall|i: int, j: int| 0 <= i < j < b.len() ==> b[i] < b[j],
        forall|x: i64| a.contains(x) <==> b.contains(x),
    ensures
        a == b,
    decreases a.len(),
{
    if a.len() == 0 {
        if b.len() > 0 {
            assert(b.contains(b[0]));
        }
        assert(a =~= b);
    } else {
        assert(a.contains(a[0]));
        let j = choose|j: int| 0 <= j < b.len() && b[j] == a[0];
        assert(b.contains(b[0]));
        let i = choose|i: int| 0 <= i < a.len() && a[i] == b[0];
        assert(a[0] == b[0]) by {
            if j > 0 {
                assert(b[0] < b[j]);
            }
            if i > 0 {
                assert(a[0] < a[i]);
            }
        }
        let a1 = a.drop_first();
        let b1 = b.drop_first();
        assert forall|x: i64| a1.contains(x) implies b1.contains(x) by {
            let k = choose|k: int| 0 <= k < a1.len() && a1[k] == x;
            assert(a[k + 1] == x && a[0] < a[k + 1]);
            assert(a.contains(x));
            let m = choose|m: int| 0 <= m < b.len() && b[m] == x;
            assert(m != 0);
            assert(b1[m - 1] == x);
        }
        assert forall|x: i64| b1.contains(x) implies a1.contains(x) by {
            let k = choose|k: int| 0 <= k < b1.len() && b1[k] == x;
            assert(b[k + 1] == x && b[0] < b[k + 1]);
            assert(b.contains(x));
            let m = choose|m: int| 0 <= m < a.len() && a[m] == x;
            assert(m != 0);
            assert(a1[m - 1] == x);
        }
        assert forall|i: int, j: int| 0 <= i < j < a1.len() implies a1[i] < a1[j] by {
            assert(a[i + 1] < a[j + 1]);
        }
        assert forall|i: int, j: int| 0 <= i < j < b1.len() implies b1[i] < b1[j] by {
            assert(b[i + 1] < b[j + 1]);
        }
        lemma_increasing_unique(a1, b1);
        assert(a =~= b) by {
            assert forall|k: int| 0 <= k < a.len() implies a[k] == b[k] by {
                if k > 0 {
                    assert(a[k] == a1[k - 1]);
                    assert(b[k] == b1[k - 1]);
                }
            }
        }
    }
}

/// There is one listing of the user's chunk numbers.
pub proof fn lemma_chunk_seqs_unique(db: DbModel, tg_id: i64, seqs: Seq<i64>)
    requires
        lists_chunk_seqs(db, tg_id, seqs),
    ensures
        seqs == user_chunk_seqs(db, tg_id),
{
    let other = user_chunk_seqs(db, tg_id);
    assert(lists_chunk_seqs(db, tg_id, other));
    assert forall|x: i64| seqs.contains(x) <==> other.contains(x) by {
        if seqs.contains(x) {
            let k = choose|k: int| 0 <= k < seqs.len() && seqs[k] == x;
            assert(has_chunk(db, tg_id, seqs[k]));
        }
        if other.contains(x) {
            let k = choose|k: int| 0 <= k < other.len() && other[k] == x;
            assert(has_chunk(db, tg_id, other[k]));
        }
    }
    lemma_increasing_unique(seqs, other);
}

/// The chunk numbers of chunk rows.
pub open spec fn row_seqs(rows: Seq<ChunkRow>) -> Seq<i64> {
    rows.map_values(|r: ChunkRow| r.seq)
}

/// Whether `rows` are the user's chunks in increasing `seq` order.
pub open spec fn lists_chunks(db: DbModel, tg_id: i64, rows: Seq<ChunkRow>) -> bool {
    &&& lists_chunk_seqs(db, tg_id, row_seqs(rows))
    &&& forall|i: int| 0 <= i < rows.len() ==> (#[trigger] rows[i]).tg_id == tg_id
        && rows[i].blob@ == db.chunks[(tg_id, rows[i].seq)]
}

/// The blobs of chunk rows.
pub open spec fn row_blobs(rows: Seq<ChunkRow>) -> Seq<Seq<u8>> {
    rows.map_values(|r: ChunkRow| r.blob@)
}

/// The rows that list the user's chunks hold the user's chunk blobs in order.
pub proof fn lemma_listed_blobs(db: DbModel, tg_id: i64, rows: Seq<ChunkRow>)
    requires
        lists_chunks(db, tg_id, rows),
    ensures
        row_blobs(rows) == user_chunk_blobs(db, tg_id),
        row_seqs(rows) == user_chunk_seqs(db, tg_id),
{
    lemma_chunk_seqs_unique(db, tg_id, row_seqs(rows));
    assert forall|k: int| 0 <= k < rows.len() implies #[trigger] row_blobs(rows)[k] == user_chunk_blobs(db, tg_id)[k] by {
        assert(rows[k].blob@ == db.chunks[(tg_id, rows[k].seq)]);
        assert(row_seqs(rows)[k] == rows[k].seq);
    }
    assert(row_blobs(rows) =~= user_chunk_blobs(db, tg_id));
}

/// The message rows seen as `(role, blob)`.
pub open spec fn message_views(rows: Seq<MessageRow>) -> Seq<(Seq<char>, Seq<u8>)> {
    rows.map_values(|r: MessageRow| (r.role@, r.blob@))
}

/// Whether the database is unchanged.
pub open spec fn same_db(a: DbModel, b: DbModel) -> bool {
    a.users == b.users && a.chunks == b.chunks && a.messages == b.messages
}

// ---------------------------------------------------------------------------
// Trusted items: the SQLite statements
// ---------------------------------------------------------------------------

/// Calls `rusqlite::Connection::open` on `path` and runs the schema with
/// `execute_batch`; the schema must be [`MIGRATION_SQL`], which only creates
/// tables and an index. Claimed: the connection is open on the database at
/// `path` (the file there, created if missing, or a fresh in-memory database
/// for `":memory:"`), which the handle records as its location; an in-memory
/// database starts with empty tables. What a file on disk holds is not
/// stated.
#[verifier::external_body]
fn connect(path: &str, schema: &str) -> (r: Result<DbHandle, rusqlite::Error>)
    requires
        schema@ == MIGRATION_SQL@,
    ensures
        r matches Ok(db) ==> db.location@ == path@,
        path@ == ":memory:"@ ==> (r matches Ok(db) ==> stored_users(db.conn).is_empty() && stored_chunks(
            db.conn,
        ).is_empty() && stored_messages(db.conn).len() == 0),
{
    let conn = rusqlite::Connection::open(path)?;
    conn.execute_batch(schema)?;
    Ok(DbHandle { conn, location: path.to_string() })
}

impl DbHandle {
    /// Runs `INSERT INTO users` (`rusqlite::Connection::execute`). Claimed:
    /// on success no row had that id before and the row is added; on failure
    /// nothing changes.
    #[verifier::external_body]
    fn insert_user_row(&mut self, tg_id: i64, pw_hash: &[u8], verifier_salt: &[u8], key_salt: &[u8]) -> (r: Result<(), rusqlite::Error>)
        ensures
            r is Ok ==> !old(self)@.users.contains_key(tg_id) && final(self)@.users == old(self)@.users.insert(tg_id, (pw_hash@, verifier_salt@, key_salt@))
                && final(self)@.chunks == old(self)@.chunks && final(self)@.messages == old(self)@.messages,
            r is Err ==> same_db(final(self)@, old(self)@),
    {
        self.conn.execute(
            "INSERT INTO users (tg_id, pw_hash, verifier_salt, key_salt) VALUES (?, ?, ?, ?)",
            (tg_id, pw_hash, verifier_salt, key_salt),
        )?;
        Ok(())
    }

    /// Runs `SELECT ... FROM users WHERE tg_id = ?` (`query_row` with
    /// `optional`). Claimed: a success gives the stored row, or `None` when
    /// there is none.
    #[verifier::external_body]
    fn select_user(&self, tg_id: i64) -> (r: Result<Option<(Vec<u8>, Vec<u8>, Vec<u8>)>, rusqlite::Error>)
        ensures
            r matches Ok(o) ==> match o {
                Some(t) => self@.users.contains_key(tg_id) && self@.users[tg_id] == (t.0@, t.1@, t.2@),
                None => !self@.users.contains_key(tg_id),
            },
    {
        self.conn.query_row(
            "SELECT pw_hash, verifier_salt, key_salt FROM users WHERE tg_id = ?",
            (tg_id,),
            |r| Ok((r.get(0)?, r.get(1)?, r.get(2)?)),
        ).optional()
    }

    /// Runs `UPDATE users SET ... WHERE tg_id = ?`. Claimed: on success the
    /// number of changed rows is 1 and the record replaced when the user
    /// exists, 0 and nothing changed otherwise; on failure nothing changes.
    #[verifier::external_body]
    fn update_user_row(&mut self, tg_id: i64, pw_hash: &[u8], verifier_salt: &[u8], key_salt: &[u8]) -> (r: Result<usize, rusqlite::Error>)
        ensures
            r matches Ok(n) ==> if old(self)@.users.contains_key(tg_id) {
                n == 1 && final(self)@.users == old(self)@.users.insert(tg_id, (pw_hash@, verifier_salt@, key_salt@))
                    && final(self)@.chunks == old(self)@.chunks && final(self)@.messages == old(self)@.messages
            } else {
                n == 0 && same_db(final(self)@, old(self)@)
            },
            r is Err ==> same_db(final(self)@, old(self)@),
    {
        self.conn.execute(
            "UPDATE users SET pw_hash = ?, verifier_salt = ?, key_salt = ? WHERE tg_id = ?",
            (pw_hash, verifier_salt, key_salt, tg_id),
        )
    }

    /// Runs `DELETE FROM users WHERE tg_id = ?`. Claimed (the schema's
    /// `ON DELETE CASCADE` with foreign keys on): on success the user's row,
    /// chunks and messages are gone, everything else stays, and the count is
    /// 1 iff the user existed; on failure nothing changes.
    #[verifier::external_body]
    fn delete_user_row(&mut self, tg_id: i64) -> (r: Result<usize, rusqlite::Error>)
        ensures
            r matches Ok(n) ==> {
                &&& n == (if old(self)@.users.contains_key(tg_id) { 1usize } else { 0usize })
                &&& final(self)@.users == old(self)@.users.remove(tg_id)
                &&& final(self)@.chunks == chunks_without(old(self)@.chunks, tg_id)
                &&& final(self)@.messages == messages_without(old(self)@.messages, tg_id)
            },
            r is Err ==> same_db(final(self)@, old(self)@),
    {
        self.conn.execute("DELETE FROM users WHERE tg_id = ?", (tg_id,))
    }

    /// Runs `SELECT MAX(seq) FROM context_chunks WHERE tg_id = ?`. Claimed:
    /// a success gives the largest chunk number of the user, `None` when the
    /// user has no chunk.
    #[verifier::external_body]
    fn select_max_seq(&self, tg_id: i64) -> (r: Result<Option<i64>, rusqlite::Error>)
        ensures
            r matches Ok(m) ==> match m {
                Some(x) => has_chunk(self@, tg_id, x) && forall|s: i64| #[trigger] has_chunk(self@, tg_id, s) ==> s <= x,
                None => forall|s: i64| !#[trigger] has_chunk(self@, tg_id, s),
            },
    {
        self.conn.query_row("SELECT MAX(seq) FROM context_chunks WHERE tg_id = ?", (tg_id,), |r| r.get(0))
    }

    /// Runs `INSERT INTO context_chunks`. Claimed: on success the user
    /// exists (foreign key), had no chunk with that number, and the chunk
    /// `nonce || ciphertext` is added; on failure nothing changes.
    #[verifier::external_body]
    fn insert_chunk_row(&mut self, tg_id: i64, seq: i64, nonce: &[u8], ciphertext: &[u8]) -> (r: Result<(), rusqlite::Error>)
        ensures
            r is Ok ==> old(self)@.users.contains_key(tg_id) && !has_chunk(old(self)@, tg_id, seq)
                && final(self)@.chunks == old(self)@.chunks.insert((tg_id, seq), nonce@ + ciphertext@)
                && final(self)@.users == old(self)@.users && final(self)@.messages == old(self)@.messages,
            r is Err ==> same_db(final(self)@, old(self)@),
    {
        self.conn.execute(
            "INSERT INTO context_chunks (tg_id, seq, nonce, ciphertext) VALUES (?, ?, ?, ?)",
            (tg_id, seq, nonce, ciphertext),
        )?;
        Ok(())
    }

    /// Runs `UPDATE context_chunks SET nonce, ciphertext, updated_at`.
    /// Claimed: on success the count is 1 and the chunk replaced when it
    /// exists, 0 and nothing changed otherwise (the update time is not
    /// modelled); on failure nothing changes.
    #[verifier::external_body]
    fn update_chunk_row(&mut self, tg_id: i64, seq: i64, nonce: &[u8], ciphertext: &[u8]) -> (r: Result<usize, rusqlite::Error>)
        ensures
            r matches Ok(n) ==> if has_chunk(old(self)@, tg_id, seq) {
                n == 1 && final(self)@.chunks == old(self)@.chunks.insert((tg_id, seq), nonce@ + ciphertext@)
                    && final(self)@.users == old(self)@.users && final(self)@.messages == old(self)@.messages
            } else {
                n == 0 && same_db(final(self)@, old(self)@)
            },
            r is Err ==> same_db(final(self)@, old(self)@),
    {
        self.conn.execute(
            "UPDATE context_chunks SET nonce = ?, ciphertext = ?, updated_at = datetime('now') WHERE tg_id = ? AND seq = ?",
            (nonce, ciphertext, tg_id, seq),
        )
    }

    /// Runs `DELETE FROM context_chunks WHERE tg_id = ? AND seq = ?`.
    /// Claimed: on success the chunk is gone and the count is 1 iff it
    /// existed; on failure nothing changes.
    #[verifier::external_body]
    fn delete_chunk_row(&mut self, tg_id: i64, seq: i64) -> (r: Result<usize, rusqlite::Error>)
        ensures
            r matches Ok(n) ==> n == (if has_chunk(old(self)@, tg_id, seq) { 1usize } else { 0usize })
                && final(self)@.chunks == old(self)@.chunks.remove((tg_id, seq))
                && final(self)@.users == old(self)@.users && final(self)@.messages == old(self)@.messages,
            r is Err ==> same_db(final(self)@, old(self)@),
    {
        self.conn.execute("DELETE FROM context_chunks WHERE tg_id = ? AND seq = ?", (tg_id, seq))
    }

    /// Runs `SELECT seq, nonce, ciphertext ... ORDER BY seq ASC`
    /// (`prepare`, `query_map`, collected). Claimed: a success lists every
    /// chunk of the user once, by increasing number, as
    /// `(seq, nonce, ciphertext)`.
    #[verifier::external_body]
    fn select_chunks(&self, tg_id: i64) -> (r: Result<Vec<(i64, Vec<u8>, Vec<u8>)>, rusqlite::Error>)
        ensures
            r matches Ok(rows) ==> {
                &&& lists_chunk_seqs(self@, tg_id, rows@.map_values(|t: (i64, Vec<u8>, Vec<u8>)| t.0))
                &&& forall|i: int| 0 <= i < rows@.len() ==> (#[trigger] rows@[i]).1@ + rows@[i].2@ == self@.chunks[(tg_id, rows@[i].0)]
            },
    {
        let mut stmt = self.conn.prepare(
            "SELECT seq, nonce, ciphertext FROM context_chunks WHERE tg_id = ? ORDER BY seq ASC",
        )?;
        let rows = stmt.query_map((tg_id,), |r| Ok((r.get(0)?, r.get(1)?, r.get(2)?)))?.collect();
        rows
    }

    /// Runs `SELECT seq FROM context_chunks ... ORDER BY seq ASC`. Claimed: a
    /// success lists the user's chunk numbers once each, increasing.
    #[verifier::external_body]
    fn select_seqs(&self, tg_id: i64) -> (r: Result<Vec<i64>, rusqlite::Error>)
        ensures
            r matches Ok(seqs) ==> lists_chunk_seqs(self@, tg_id, seqs@),
    {
        let mut stmt = self.conn.prepare("SELECT seq FROM context_chunks WHERE tg_id = ? ORDER BY seq ASC")?;
        let seqs = stmt.query_map((tg_id,), |r| r.get(0))?.collect();
        seqs
    }

    /// Runs `INSERT INTO messages`. Claimed: on success the user exists
    /// (foreign key) and the message is appended to the log; on failure
    /// nothing changes.
    #[verifier::external_body]
    fn insert_message_row(&mut self, tg_id: i64, role: &str, nonce: &[u8], ciphertext: &[u8]) -> (r: Result<(), rusqlite::Error>)
        ensures
            r is Ok ==> old(self)@.users.contains_key(tg_id)
                && final(self)@.messages == old(self)@.messages.push((tg_id, role@, nonce@ + ciphertext@))
                && final(self)@.users == old(self)@.users && final(self)@.chunks == old(self)@.chunks,
            r is Err ==> same_db(final(self)@, old(self)@),
    {
        self.conn.execute(
            "INSERT INTO messages (tg_id, role, nonce, ciphertext) VALUES (?, ?, ?, ?)",
            (tg_id, role, nonce, ciphertext),
        )?;
        Ok(())
    }

    /// Runs the "last `limit` messages, oldest first" query. Claimed: a
    /// success gives the last `limit` messages of the user in log order, as
    /// `(role, nonce, ciphertext)`.
    #[verifier::external_body]
    fn select_recent_messages(&self, tg_id: i64, limit: u32) -> (r: Result<Vec<(String, Vec<u8>, Vec<u8>)>, rusqlite::Error>)
        ensures
            r matches Ok(rows) ==> rows@.map_values(|t: (String, Vec<u8>, Vec<u8>)| (t.0@, t.1@ + t.2@))
                == last_n(messages_of(self@.messages, tg_id), limit as int),
    {
        let mut stmt = self.conn.prepare(
            "SELECT role, nonce, ciphertext FROM (SELECT * FROM messages WHERE tg_id = ? ORDER BY id DESC LIMIT ?) ORDER BY id ASC",
        )?;
        let rows = stmt.query_map((tg_id, limit), |r| Ok((r.get(0)?, r.get(1)?, r.get(2)?)))?.collect();
        rows
    }

    /// Runs `DELETE FROM messages WHERE tg_id = ?`. Claimed: on success the
    /// user's messages are gone and the others keep their order; on failure
    /// nothing changes.
    #[verifier::external_body]
    fn delete_messages(&mut self, tg_id: i64) -> (r: Result<usize, rusqlite::Error>)
        ensures
            r is Ok ==> final(self)@.messages == messages_without(old(self)@.messages, tg_id)
                && final(self)@.users == old(self)@.users && final(self)@.chunks == old(self)@.chunks,
            r is Err ==> same_db(final(self)@, old(self)@),
    {
        self.conn.execute("DELETE FROM messages WHERE tg_id = ?", (tg_id,))
    }
}

// ---------------------------------------------------------------------------
// The store
// ---------------------------------------------------------------------------

/// Splits a blob into its nonce and its ciphertext.
fn split_blob(blob: &[u8]) -> (r: (&[u8], &[u8]))
    requires
        blob@.len() >= NONCE_LEN,
    ensures
        r.0@ + r.1@ == blob@,
{
    let (nonce, ciphertext) = blob.split_at(NONCE_LEN);
    assert(nonce@ + ciphertext@ == blob@);
    (nonce, ciphertext)
}

/// Joins a nonce and a ciphertext into one blob.
fn join_blob(nonce: &[u8], ciphertext: &[u8]) -> (r: Vec<u8>)
    ensures
        r@ == nonce@ + ciphertext@,
{
    let mut out: Vec<u8> = Vec::new();
    let mut i: usize = 0;
    while i < nonce.len()
        invariant
            i <= nonce@.len(),
            out@ == nonce@.take(i as int),
        decreases nonce@.len() - i,
    {
        out.push(nonce[i]);
        i = i + 1;
        assert(out@ == nonce@.take(i as int));
    }
    assert(nonce@.take(nonce@.len() as int) == nonce@);
    let mut j: usize = 0;
    while j < ciphertext.len()
        invariant
            j <= ciphertext@.len(),
            out@ == nonce@ + ciphertext@.take(j as int),
        decreases ciphertext@.len() - j,
    {
        out.push(ciphertext[j]);
        j = j + 1;
        assert(out@ == nonce@ + ciphertext@.take(j as int));
    }
    assert(ciphertext@.take(ciphertext@.len() as int) == ciphertext@);
    out
}

impl DbHandle {
    /// Open (or create) the database at `path` and run migrations: the
    /// handle's tables are those stored at `path`, so a handle opened again
    /// on the same file finds what earlier handles wrote there. An in-memory
    /// database (`":memory:"`) starts empty.
    ///
    /// The contracts of this type describe the tables as this handle alone
    /// changes them: keep one handle per database file, and let no other
    /// process write to it.
    pub fn open(path: &str) -> (r: Result<DbHandle, DbError>)
        ensures
            r matches Ok(db) ==> db.location() == path@,
            path@ == ":memory:"@ ==> (r matches Ok(db) ==> db@.users.is_empty() && db@.chunks.is_empty()
                && db@.messages.len() == 0),
            r matches Err(e) ==> e is Sqlite,
    {
        match connect(path, MIGRATION_SQL) {
            Ok(db) => Ok(db),
            Err(e) => Err(DbError::Sqlite(e)),
        }
    }

    // ----- users -----------------------------------------------------------

    /// Insert a new user record. Fails if the user already exists.
    pub fn insert_user(&mut self, row: &UserRow) -> (r: Result<(), DbError>)
        ensures
            r is Ok ==> !old(self)@.users.contains_key(row.tg_id)
                && final(self)@.users == old(self)@.users.insert(row.tg_id, user_record(*row))
                && final(self)@.chunks == old(self)@.chunks && final(self)@.messages == old(self)@.messages,
            r matches Err(e) ==> e is Sqlite && same_db(final(self)@, old(self)@),
    {
        match self.insert_user_row(row.tg_id, row.pw_hash.as_slice(), row.verifier_salt.as_slice(), row.key_salt.as_slice()) {
            Ok(()) => Ok(()),
            Err(e) => Err(DbError::Sqlite(e)),
        }
    }

    /// The user's record, if there is one.
    pub fn get_user(&self, tg_id: i64) -> (r: Result<Option<UserRow>, DbError>)
        ensures
            r matches Ok(o) ==> match o {
                Some(u) => u.tg_id == tg_id && self@.users.contains_key(tg_id) && self@.users[tg_id] == user_record(u),
                None => !self@.users.contains_key(tg_id),
            },
            r matches Err(e) ==> e is Sqlite,
    {
        match self.select_user(tg_id) {
            Ok(Some((pw_hash, verifier_salt, key_salt))) => Ok(Some(UserRow { tg_id, pw_hash, verifier_salt, key_salt })),
            Ok(None) => Ok(None),
            Err(e) => Err(DbError::Sqlite(e)),
        }
    }

    /// Replace the user's verifier hash and both salts (used on passphrase
    /// change). A missing user is left missing.
    pub fn update_user_verifier(&mut self, row: &UserRow) -> (r: Result<(), DbError>)
        ensures
            r is Ok ==> if old(self)@.users.contains_key(row.tg_id) {
                final(self)@.users == old(self)@.users.insert(row.tg_id, user_record(*row))
                    && final(self)@.chunks == old(self)@.chunks && final(self)@.messages == old(self)@.messages
            } else {
                same_db(final(self)@, old(self)@)
            },
            r matches Err(e) ==> e is Sqlite && same_db(final(self)@, old(self)@),
    {
        match self.update_user_row(row.tg_id, row.pw_hash.as_slice(), row.verifier_salt.as_slice(), row.key_salt.as_slice()) {
            Ok(_) => Ok(()),
            Err(e) => Err(DbError::Sqlite(e)),
        }
    }

    /// Delete a user record together with all the user's context chunks and
    /// messages. Returns true if a record was actually deleted.
    pub fn delete_user(&mut self, tg_id: i64) -> (r: Result<bool, DbError>)
        ensures
            r matches Ok(b) ==> {
                &&& b == old(self)@.users.contains_key(tg_id)
                &&& final(self)@.users == old(self)@.users.remove(tg_id)
                &&& final(self)@.chunks == chunks_without(old(self)@.chunks, tg_id)
                &&& final(self)@.messages == messages_without(old(self)@.messages, tg_id)
            },
            r matches Err(e) ==> e is Sqlite && same_db(final(self)@, old(self)@),
    {
        match self.delete_user_row(tg_id) {
            Ok(n) => Ok(n > 0),
            Err(e) => Err(DbError::Sqlite(e)),
        }
    }

    // ----- context chunks -------------------------------------------------

    /// Next available `seq` for this user: one more than the largest, 1 if
    /// there are no chunks yet.
    pub fn next_seq(&self, tg_id: i64) -> (r: Result<i64, DbError>)
        requires
            forall|s: i64| #[trigger] has_chunk(self@, tg_id, s) ==> s < i64::MAX,
        ensures
            r matches Ok(n) ==> !has_chunk(self@, tg_id, n)
                && (forall|s: i64| #[trigger] has_chunk(self@, tg_id, s) ==> s < n)
                && if exists|s: i64| has_chunk(self@, tg_id, s) {
                    has_chunk(self@, tg_id, (n - 1) as i64)
                } else {
                    n == 1
                },
            r matches Err(e) ==> e is Sqlite,
    {
        match self.select_max_seq(tg_id) {
            Ok(Some(m)) => Ok(m + 1),
            Ok(None) => Ok(1),
            Err(e) => Err(DbError::Sqlite(e)),
        }
    }

    /// Insert a new context chunk with an explicit `seq`. Fails if the user
    /// has no record or already has a chunk with that number.
    pub fn insert_chunk(&mut self, tg_id: i64, seq: i64, blob: &[u8]) -> (r: Result<(), DbError>)
        requires
            blob@.len() >= NONCE_LEN,
        ensures
            r is Ok ==> old(self)@.users.contains_key(tg_id) && !has_chunk(old(self)@, tg_id, seq)
                && final(self)@.chunks == old(self)@.chunks.insert((tg_id, seq), blob@)
                && final(self)@.users == old(self)@.users && final(self)@.messages == old(self)@.messages,
            r matches Err(e) ==> e is Sqlite && same_db(final(self)@, old(self)@),
    {
        let (nonce, ciphertext) = split_blob(blob);
        match self.insert_chunk_row(tg_id, seq, nonce, ciphertext) {
            Ok(()) => Ok(()),
            Err(e) => Err(DbError::Sqlite(e)),
        }
    }

    /// Replace an existing chunk's blob (keeps `seq`).
    pub fn update_chunk(&mut self, tg_id: i64, seq: i64, blob: &[u8]) -> (r: Result<(), DbError>)
        requires
            blob@.len() >= NONCE_LEN,
        ensures
            r is Ok ==> has_chunk(old(self)@, tg_id, seq)
                && final(self)@.chunks == old(self)@.chunks.insert((tg_id, seq), blob@)
                && final(self)@.users == old(self)@.users && final(self)@.messages == old(self)@.messages,
            r matches Err(e) ==> same_db(final(self)@, old(self)@) && match e {
                DbError::ChunkNotFound { tg_id: t, seq: s } => t == tg_id && s == seq && !has_chunk(old(self)@, tg_id, seq),
                _ => e is Sqlite,
            },
    {
        let (nonce, ciphertext) = split_blob(blob);
        match self.update_chunk_row(tg_id, seq, nonce, ciphertext) {
            Ok(n) => {
                if n == 0 {
                    Err(DbError::ChunkNotFound { tg_id, seq })
                } else {
                    Ok(())
                }
            },
            Err(e) => Err(DbError::Sqlite(e)),
        }
    }

    /// Delete one chunk. Returns true if it existed.
    pub fn delete_chunk(&mut self, tg_id: i64, seq: i64) -> (r: Result<bool, DbError>)
        ensures
            r matches Ok(b) ==> b == has_chunk(old(self)@, tg_id, seq)
                && final(self)@.chunks == old(self)@.chunks.remove((tg_id, seq))
                && final(self)@.users == old(self)@.users && final(self)@.messages == old(self)@.messages,
            r matches Err(e) ==> e is Sqlite && same_db(final(self)@, old(self)@),
    {
        match self.delete_chunk_row(tg_id, seq) {
            Ok(n) => Ok(n > 0),
            Err(e) => Err(DbError::Sqlite(e)),
        }
    }

    /// All chunks for a user, ordered by `seq`. Each blob is reconstructed as
    /// `nonce || ciphertext`.
    pub fn chunks(&self, tg_id: i64) -> (r: Result<Vec<ChunkRow>, DbError>)
        ensures
            r matches Ok(rows) ==> lists_chunks(self@, tg_id, rows@),
            r matches Err(e) ==> e is Sqlite,
    {
        let raw = match self.select_chunks(tg_id) {
            Ok(raw) => raw,
            Err(e) => return Err(DbError::Sqlite(e)),
        };
        let ghost seqs = raw@.map_values(|t: (i64, Vec<u8>, Vec<u8>)| t.0);
        let mut rows: Vec<ChunkRow> = Vec::new();
        let mut i: usize = 0;
        while i < raw.len()
            invariant
                i <= raw@.len(),
                rows@.len() == i,
                seqs == raw@.map_values(|t: (i64, Vec<u8>, Vec<u8>)| t.0),
                forall|j: int| 0 <= j < i ==> (#[trigger] rows@[j]).tg_id == tg_id && rows@[j].seq == raw@[j].0
                    && rows@[j].blob@ == raw@[j].1@ + raw@[j].2@,
            decreases raw@.len() - i,
        {
            let blob = join_blob(raw[i].1.as_slice(), raw[i].2.as_slice());
            rows.push(ChunkRow { tg_id, seq: raw[i].0, blob });
            i = i + 1;
        }
        assert(row_seqs(rows@) == seqs);
        Ok(rows)
    }

    /// Just the list of `seq`s, increasing.
    pub fn chunk_seqs(&self, tg_id: i64) -> (r: Result<Vec<i64>, DbError>)
        ensures
            r matches Ok(seqs) ==> lists_chunk_seqs(self@, tg_id, seqs@),
            r matches Err(e) ==> e is Sqlite,
    {
        match self.select_seqs(tg_id) {
            Ok(seqs) => Ok(seqs),
            Err(e) => Err(DbError::Sqlite(e)),
        }
    }

    // ----- messages -------------------------------------------------------

    /// Append an encrypted message to the user's history.
    pub fn append_message(&mut self, tg_id: i64, role: &str, blob: &[u8]) -> (r: Result<(), DbError>)
        requires
            blob@.len() >= NONCE_LEN,
        ensures
            r is Ok ==> old(self)@.users.contains_key(tg_id)
                && final(self)@.messages == old(self)@.messages.push((tg_id, role@, blob@))
                && final(self)@.users == old(self)@.users && final(self)@.chunks == old(self)@.chunks,
            r matches Err(e) ==> e is Sqlite && same_db(final(self)@, old(self)@),
    {
        let (nonce, ciphertext) = split_blob(blob);
        match self.insert_message_row(tg_id, role, nonce, ciphertext) {
            Ok(()) => Ok(()),
            Err(e) => Err(DbError::Sqlite(e)),
        }
    }

    /// Last `limit` messages for a user, oldest-first (chat order).
    pub fn recent_messages(&self, tg_id: i64, limit: u32) -> (r: Result<Vec<MessageRow>, DbError>)
        ensures
            r matches Ok(rows) ==> message_views(rows@) == last_n(messages_of(self@.messages, tg_id), limit as int)
                && forall|i: int| 0 <= i < rows@.len() ==> (#[trigger] rows@[i]).tg_id == tg_id,
            r matches Err(e) ==> e is Sqlite,
    {
        let raw = match self.select_recent_messages(tg_id, limit) {
            Ok(raw) => raw,
            Err(e) => return Err(DbError::Sqlite(e)),
        };
        let mut rows: Vec<MessageRow> = Vec::new();
        let mut i: usize = 0;
        while i < raw.len()
            invariant
                i <= raw@.len(),
                rows@.len() == i,
                forall|j: int| 0 <= j < i ==> (#[trigger] rows@[j]).tg_id == tg_id && rows@[j].role@ == raw@[j].0@
                    && rows@[j].blob@ == raw@[j].1@ + raw@[j].2@,
            decreases raw@.len() - i,
        {
            let blob = join_blob(raw[i].1.as_slice(), raw[i].2.as_slice());
            let role = raw[i].0.clone();
            rows.push(MessageRow { tg_id, role, blob });
            i = i + 1;
        }
        assert(message_views(rows@) == raw@.map_values(|t: (String, Vec<u8>, Vec<u8>)| (t.0@, t.1@ + t.2@)));
        Ok(rows)
    }

    /// Delete the user's whole message history.
    pub fn clear_messages(&mut self, tg_id: i64) -> (r: Result<(), DbError>)
        ensures
            r is Ok ==> final(self)@.messages == messages_without(old(self)@.messages, tg_id)
                && final(self)@.users == old(self)@.users && final(self)@.chunks == old(self)@.chunks,
            r matches Err(e) ==> e is Sqlite && same_db(final(self)@, old(self)@),
    {
        match self.delete_messages(tg_id) {
            Ok(_) => Ok(()),
            Err(e) => Err(DbError::Sqlite(e)),
        }
    }
}

// ---------------------------------------------------------------------------
// Transactions
// ---------------------------------------------------------------------------

impl DbHandle {
    /// Runs `BEGIN`. Claimed: the tables are unchanged, and on success the
    /// transaction's starting point is the tables as they are.
    #[verifier::external_body]
    fn begin(&mut self) -> (r: Result<(), rusqlite::Error>)
        ensures
            final(self)@ == old(self)@,
            r is Ok ==> saved_users(final(self).conn) == old(self)@.users && saved_chunks(final(self).conn)
                == old(self)@.chunks && saved_messages(final(self).conn) == old(self)@.messages,
    {
        self.conn.execute_batch("BEGIN")
    }

    /// Runs `COMMIT`. Claimed: on success the tables are unchanged (the
    /// transaction's changes are kept); on failure nothing is claimed of
    /// the tables (SQLite may have rolled the transaction back).
    #[verifier::external_body]
    fn commit(&mut self) -> (r: Result<(), rusqlite::Error>)
        ensures
            final(self).saved() == old(self).saved(),
            r is Ok ==> final(self)@ == old(self)@,
    {
        self.conn.execute_batch("COMMIT")
    }

    /// Runs `ROLLBACK`. Claimed: on success the tables are back where the
    /// transaction began. On failure nothing is claimed.
    #[verifier::external_body]
    fn rollback(&mut self) -> (r: Result<(), rusqlite::Error>)
        ensures
            r is Ok ==> final(self)@ == old(self).saved(),
    {
        self.conn.execute_batch("ROLLBACK")
    }

    /// Runs the chunk `UPDATE` inside a transaction. Claimed: the same as
    /// `update_chunk_row` on success; a failure leaves the transaction's
    /// starting point and claims nothing of the tables.
    #[verifier::external_body]
    fn tx_update_chunk_row(&mut self, tg_id: i64, seq: i64, nonce: &[u8], ciphertext: &[u8]) -> (r: Result<usize, rusqlite::Error>)
        ensures
            final(self).saved() == old(self).saved(),
            r matches Ok(n) ==> if has_chunk(old(self)@, tg_id, seq) {
                n == 1 && final(self)@.chunks == old(self)@.chunks.insert((tg_id, seq), nonce@ + ciphertext@)
                    && final(self)@.users == old(self)@.users && final(self)@.messages == old(self)@.messages
            } else {
                n == 0 && same_db(final(self)@, old(self)@)
            },
    {
        self.conn.execute(
            "UPDATE context_chunks SET nonce = ?, ciphertext = ?, updated_at = datetime('now') WHERE tg_id = ? AND seq = ?",
            (nonce, ciphertext, tg_id, seq),
        )
    }

    /// Runs the messages `DELETE` inside a transaction. Claimed: the same as
    /// `delete_messages` on success; a failure claims nothing of the tables.
    #[verifier::external_body]
    fn tx_delete_messages(&mut self, tg_id: i64) -> (r: Result<usize, rusqlite::Error>)
        ensures
            final(self).saved() == old(self).saved(),
            r is Ok ==> final(self)@.messages == messages_without(old(self)@.messages, tg_id)
                && final(self)@.users == old(self)@.users && final(self)@.chunks == old(self)@.chunks,
    {
        self.conn.execute("DELETE FROM messages WHERE tg_id = ?", (tg_id,))
    }

    /// Runs the message `INSERT` inside a transaction. Claimed: the same as
    /// `insert_message_row` on success; a failure claims nothing of the
    /// tables.
    #[verifier::external_body]
    fn tx_insert_message_row(&mut self, tg_id: i64, role: &str, nonce: &[u8], ciphertext: &[u8]) -> (r: Result<(), rusqlite::Error>)
        ensures
            final(self).saved() == old(self).saved(),
            r is Ok ==> old(self)@.users.contains_key(tg_id)
                && final(self)@.messages == old(self)@.messages.push((tg_id, role@, nonce@ + ciphertext@))
                && final(self)@.users == old(self)@.users && final(self)@.chunks == old(self)@.chunks,
    {
        self.conn.execute(
            "INSERT INTO messages (tg_id, role, nonce, ciphertext) VALUES (?, ?, ?, ?)",
            (tg_id, role, nonce, ciphertext),
        )?;
        Ok(())
    }

    /// Runs the users `UPDATE` inside a transaction. Claimed: the same as
    /// `update_user_row` on success; a failure claims nothing of the tables.
    #[verifier::external_body]
    fn tx_update_user_row(&mut self, tg_id: i64, pw_hash: &[u8], verifier_salt: &[u8], key_salt: &[u8]) -> (r: Result<usize, rusqlite::Error>)
        ensures
            final(self).saved() == old(self).saved(),
            r matches Ok(n) ==> if old(self)@.users.contains_key(tg_id) {
                n == 1 && final(self)@.users == old(self)@.users.insert(tg_id, (pw_hash@, verifier_salt@, key_salt@))
                    && final(self)@.chunks == old(self)@.chunks && final(self)@.messages == old(self)@.messages
            } else {
                n == 0 && same_db(final(self)@, old(self)@)
            },
    {
        self.conn.execute(
            "UPDATE users SET pw_hash = ?, verifier_salt = ?, key_salt = ? WHERE tg_id = ?",
            (pw_hash, verifier_salt, key_salt, tg_id),
        )
    }

    /// Undo the open transaction after `cause` made a change fail.
    fn abandon(&mut self, cause: rusqlite::Error) -> (e: DbError)
        ensures
            e is Sqlite || e is RollbackFailed,
            e is Sqlite ==> final(self)@ == old(self).saved(),
    {
        match self.rollback() {
            Ok(()) => DbError::Sqlite(cause),
            Err(e) => DbError::RollbackFailed(e),
        }
    }

    /// The writes of a rewrite, inside the open transaction.
    fn rewrite_in_transaction(
        &mut self,
        tg_id: i64,
        seqs: &[i64],
        chunk_blobs: &[Vec<u8>],
        roles: &[String],
        message_blobs: &[Vec<u8>],
        record: &UserRow,
    ) -> (r: Result<(), rusqlite::Error>)
        requires
            rewrite_fits(old(self)@, tg_id, seqs@, chunk_blobs@, roles@, message_blobs@, *record),
        ensures
            final(self).saved() == old(self).saved(),
            r is Ok ==> rewritten(old(self)@, final(self)@, tg_id, seqs@, chunk_blobs@, roles@, message_blobs@, *record),
    {
        let ghost before = self@;
        let mut i: usize = 0;
        while i < seqs.len()
            invariant
                rewrite_fits(before, tg_id, seqs@, chunk_blobs@, roles@, message_blobs@, *record),
                self.saved() == old(self).saved(),
                before == old(self)@,
                i <= seqs@.len(),
                self@.users == before.users,
                self@.messages == before.messages,
                self@.chunks.dom() == before.chunks.dom(),
                forall|j: int| 0 <= j < i ==> self@.chunks[(tg_id, #[trigger] seqs@[j])] == chunk_blobs@[j]@,
                forall|j: int| i <= j < seqs@.len() ==> self@.chunks[(tg_id, #[trigger] seqs@[j])] == before.chunks[(
                    tg_id,
                    seqs@[j],
                )],
                forall|k: (i64, i64)| #[trigger] self@.chunks.contains_key(k) && !(k.0 == tg_id && seqs@.contains(k.1))
                    ==> self@.chunks[k] == before.chunks[k],
            decreases seqs@.len() - i,
        {
            let seq = seqs[i];
            let (nonce, ciphertext) = split_blob(chunk_blobs[i].as_slice());
            assert(has_chunk(before, tg_id, seqs@[i as int]));
            match self.tx_update_chunk_row(tg_id, seq, nonce, ciphertext) {
                Ok(_) => {},
                Err(e) => return Err(e),
            }
            proof {
                assert forall|j: int| 0 <= j < seqs@.len() && j != i implies #[trigger] seqs@[j] != seq by {}
                assert forall|k: (i64, i64)| #[trigger] self@.chunks.contains_key(k) && !(k.0 == tg_id
                    && seqs@.contains(k.1)) implies self@.chunks[k] == before.chunks[k] by {
                    if k == (tg_id, seq) {
                        assert(seqs@.contains(seq));
                    }
                }
            }
            i = i + 1;
        }
        match self.tx_delete_messages(tg_id) {
            Ok(_) => {},
            Err(e) => return Err(e),
        }
        proof {
            lemma_messages_without_has_none(before.messages, tg_id);
        }
        let ghost cleared = self@.messages;
        let mut j: usize = 0;
        while j < roles.len()
            invariant
                rewrite_fits(before, tg_id, seqs@, chunk_blobs@, roles@, message_blobs@, *record),
                self.saved() == old(self).saved(),
                j <= roles@.len(),
                self@.users == before.users,
                rewritten_chunks(before.chunks, self@.chunks, tg_id, seqs@, chunk_blobs@),
                messages_without(self@.messages, tg_id) == messages_without(before.messages, tg_id),
                messages_of(self@.messages, tg_id) == rewritten_messages(roles@, message_blobs@).take(j as int),
            decreases roles@.len() - j,
        {
            let (nonce, ciphertext) = split_blob(message_blobs[j].as_slice());
            let ghost prev = self@.messages;
            match self.tx_insert_message_row(tg_id, roles[j].as_str(), nonce, ciphertext) {
                Ok(()) => {},
                Err(e) => return Err(e),
            }
            proof {
                lemma_push_message(prev, (tg_id, roles@[j as int]@, message_blobs@[j as int]@), tg_id);
                assert(rewritten_messages(roles@, message_blobs@).take(j + 1) =~= rewritten_messages(
                    roles@,
                    message_blobs@,
                ).take(j as int).push((roles@[j as int]@, message_blobs@[j as int]@)));
            }
            j = j + 1;
        }
        assert(rewritten_messages(roles@, message_blobs@).take(roles@.len() as int) =~= rewritten_messages(
            roles@,
            message_blobs@,
        ));
        match self.tx_update_user_row(
            record.tg_id,
            record.pw_hash.as_slice(),
            record.verifier_salt.as_slice(),
            record.key_salt.as_slice(),
        ) {
            Ok(_) => {},
            Err(e) => return Err(e),
        }
        Ok(())
    }

    /// Rewrite a user's data in one transaction: the blobs of the chunks
    /// numbered `seqs`, the whole message history, and the user's record.
    /// Either all of it is written, or (when SQLite fails) none of it: the
    /// tables are as before, unless rolling back failed too.
    pub fn rewrite_user_data(
        &mut self,
        tg_id: i64,
        seqs: &[i64],
        chunk_blobs: &[Vec<u8>],
        roles: &[String],
        message_blobs: &[Vec<u8>],
        record: &UserRow,
    ) -> (r: Result<(), DbError>)
        requires
            rewrite_fits(old(self)@, tg_id, seqs@, chunk_blobs@, roles@, message_blobs@, *record),
        ensures
            r is Ok ==> rewritten(old(self)@, final(self)@, tg_id, seqs@, chunk_blobs@, roles@, message_blobs@, *record),
            r matches Err(e) ==> (e is Sqlite && same_db(final(self)@, old(self)@)) || e is RollbackFailed,
    {
        match self.begin() {
            Ok(()) => {},
            Err(e) => return Err(DbError::Sqlite(e)),
        }
        assert(self.saved() == old(self)@);
        match self.rewrite_in_transaction(tg_id, seqs, chunk_blobs, roles, message_blobs, record) {
            Ok(()) => {},
            Err(e) => return Err(self.abandon(e)),
        }
        let ghost done = self@;
        match self.commit() {
            Ok(()) => Ok(()),
            Err(e) => Err(self.abandon(e)),
        }
    }
}

/// Whether a rewrite can be asked for: one blob (at least a nonce long) per
/// chunk number, the numbers distinct and all of the user's, one blob per
/// message, and the record is the user's, who exists.
pub open spec fn rewrite_fits(
    db: DbModel,
    tg_id: i64,
    seqs: Seq<i64>,
    chunk_blobs: Seq<Vec<u8>>,
    roles: Seq<String>,
    message_blobs: Seq<Vec<u8>>,
    record: UserRow,
) -> bool {
    &&& seqs.len() == chunk_blobs.len()
    &&& roles.len() == message_blobs.len()
    &&& seqs.no_duplicates()
    &&& forall|i: int| 0 <= i < seqs.len() ==> #[trigger] has_chunk(db, tg_id, seqs[i])
    &&& forall|i: int| 0 <= i < chunk_blobs.len() ==> (#[trigger] chunk_blobs[i])@.len() >= NONCE_LEN
    &&& forall|i: int| 0 <= i < message_blobs.len() ==> (#[trigger] message_blobs[i])@.len() >= NONCE_LEN
    &&& record.tg_id == tg_id
    &&& db.users.contains_key(tg_id)
}

/// Whether `new` holds the chunks numbered `seqs` of the user with the given
/// blobs, and every other chunk as in `old`.
pub open spec fn rewritten_chunks(
    old: Map<(i64, i64), Seq<u8>>,
    new: Map<(i64, i64), Seq<u8>>,
    tg_id: i64,
    seqs: Seq<i64>,
    chunk_blobs: Seq<Vec<u8>>,
) -> bool {
    &&& new.dom() == old.dom()
    &&& forall|j: int| 0 <= j < seqs.len() ==> new[(tg_id, #[trigger] seqs[j])] == chunk_blobs[j]@
    &&& forall|k: (i64, i64)| #[trigger] new.contains_key(k) && !(k.0 == tg_id && seqs.contains(k.1)) ==> new[k]
        == old[k]
}

/// The message history a rewrite writes, as `(role, blob)`.
pub open spec fn rewritten_messages(roles: Seq<String>, message_blobs: Seq<Vec<u8>>) -> Seq<(Seq<char>, Seq<u8>)> {
    Seq::new(roles.len(), |i: int| (roles[i]@, message_blobs[i]@))
}

/// Whether `new` is `old` after the rewrite.
pub open spec fn rewritten(
    old: DbModel,
    new: DbModel,
    tg_id: i64,
    seqs: Seq<i64>,
    chunk_blobs: Seq<Vec<u8>>,
    roles: Seq<String>,
    message_blobs: Seq<Vec<u8>>,
    record: UserRow,
) -> bool {
    &&& new.users == old.users.insert(tg_id, user_record(record))
    &&& rewritten_chunks(old.chunks, new.chunks, tg_id, seqs, chunk_blobs)
    &&& messages_without(new.messages, tg_id) == messages_without(old.messages, tg_id)
    &&& messages_of(new.messages, tg_id) == rewritten_messages(roles, message_blobs)
}

} // verus!
