use k1f_bot::crypto::{self, SALT_LEN};
use k1f_bot::db::DbHandle;
use k1f_bot::state::AppState;

fn fresh_state() -> AppState {
    AppState::new(DbHandle::open(":memory:").unwrap())
}

#[test]
fn set_and_use_key() {
    let mut s = fresh_state();
    let key = crypto::derive_key(b"pw", &[1u8; SALT_LEN]).unwrap();
    s.set_key(5, key);
    assert!(s.has_key(5));
    let got = s.with_key(5, |k| k.as_bytes()[0]).unwrap();
    assert_eq!(
        got,
        crypto::derive_key(b"pw", &[1u8; SALT_LEN]).unwrap().as_bytes()[0]
    );
}

#[test]
fn clear_key_removes_but_db_untouched() {
    let mut s = fresh_state();
    let key = crypto::derive_key(b"pw", &[1u8; SALT_LEN]).unwrap();
    s.set_key(6, key);
    assert!(s.clear_key(6));
    assert!(!s.has_key(6));
    assert!(!s.clear_key(6));
}

#[test]
fn with_key_returns_none_when_absent() {
    let s = fresh_state();
    assert!(s.with_key(999, |_| ()).is_none());
}
