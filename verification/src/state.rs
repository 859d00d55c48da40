//! Application state: the database handle and the in-memory key store.
//!
//! The key store holds each user's derived 32-byte encryption key for the
//! duration of their session. Keys are NOT persisted: after a process restart
//! the user must re-enter the passphrase to re-derive the key.
use std::collections::HashMap;
use vstd::prelude::*;

use crate::crypto::SecretKey;
use crate::db::DbHandle;

verus! {

/// The database and the keys currently in memory, by telegram user id.
pub struct AppState {
    pub db: DbHandle,
    pub keys: HashMap<i64, SecretKey>,
}

impl AppState {
    /// The key held for a user (meaningful when `has_key_spec` holds).
    pub open spec fn stored_key(&self, tg_id: i64) -> SecretKey {
        self.keys@[tg_id]
    }

    /// Whether a key for the user is in memory.
    pub open spec fn has_key_spec(&self, tg_id: i64) -> bool {
        self.keys@.contains_key(tg_id)
    }

    /// The keys in memory, as bytes.
    pub open spec fn key_map(&self) -> Map<i64, Seq<u8>> {
        self.keys@.map_values(|k: SecretKey| k@)
    }

    /// A state with the given database and no keys.
    pub fn new(db: DbHandle) -> (s: Self)
        ensures
            s.db == db,
            s.key_map().is_empty(),
    {
        let s = AppState { db, keys: HashMap::new() };
        assert(s.key_map() =~= Map::empty());
        s
    }

    /// Store (or replace) the derived key for a user.
    pub fn set_key(&mut self, tg_id: i64, key: SecretKey)
        ensures
            final(self).key_map() == old(self).key_map().insert(tg_id, key@),
            final(self).has_key_spec(tg_id) && final(self).stored_key(tg_id) == key,
            final(self).db == old(self).db,
    {
        self.keys.insert(tg_id, key);
        assert(self.key_map() =~= old(self).key_map().insert(tg_id, key@));
    }

    /// Remove the key from memory (the database and encrypted data are kept).
    /// Returns whether there was a key.
    pub fn clear_key(&mut self, tg_id: i64) -> (had: bool)
        ensures
            had == old(self).key_map().contains_key(tg_id),
            final(self).key_map() == old(self).key_map().remove(tg_id),
            final(self).db == old(self).db,
    {
        let r = self.keys.remove(&tg_id);
        assert(self.key_map() =~= old(self).key_map().remove(tg_id));
        r.is_some()
    }

    /// Run a closure with the user's key, if it's currently in memory.
    pub fn with_key<R, F: FnOnce(&SecretKey) -> R>(&self, tg_id: i64, f: F) -> (r: Option<R>)
        requires
            forall|k: &SecretKey| #[trigger] f.requires((k,)),
        ensures
            r is Some <==> self.key_map().contains_key(tg_id),
            r matches Some(x) ==> f.ensures((&self.stored_key(tg_id),), x) && self.stored_key(tg_id)@ == self.key_map()[tg_id],
    {
        match self.keys.get(&tg_id) {
            Some(k) => Some(f(k)),
            None => None,
        }
    }

    /// The user's key, if it is in memory.
    pub fn key(&self, tg_id: i64) -> (r: Option<&SecretKey>)
        ensures
            r is Some <==> self.key_map().contains_key(tg_id),
            r matches Some(k) ==> k@ == self.key_map()[tg_id],
    {
        self.keys.get(&tg_id)
    }

    /// Whether a key for the user is in memory.
    pub fn has_key(&self, tg_id: i64) -> (b: bool)
        ensures
            b == self.key_map().contains_key(tg_id),
    {
        self.keys.contains_key(&tg_id)
    }
}

} // verus!
