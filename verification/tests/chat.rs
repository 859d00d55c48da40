use k1f_bot::chat::{
    chat_messages, decrypt_text, first_answer, join_texts, persist_exchange, prepare_question,
    recent_history, refusal, settle_answer, StoreError, HISTORY_LIMIT,
};
use k1f_bot::crypto::{derive_key, encrypt};
use k1f_bot::db::{DbHandle, UserRow};
use k1f_bot::dialogue::add_context_chunk;
use k1f_bot::state::AppState;

fn fresh_state() -> AppState {
    AppState::new(DbHandle::open(":memory:").unwrap())
}

fn state_with_key(tg_id: i64) -> AppState {
    let mut s = fresh_state();
    let row = UserRow { tg_id, pw_hash: vec![0; 32], verifier_salt: vec![1; 16], key_salt: vec![2; 16] };
    s.db.insert_user(&row).unwrap();
    s.set_key(tg_id, derive_key(b"pw", &[2u8; 16]).unwrap());
    s
}

fn pairs(msgs: &[k1f_bot::chat::ChatMessage]) -> Vec<(String, String)> {
    msgs.iter().map(|m| (m.role.clone(), m.content.clone())).collect()
}

fn pair(a: &str, b: &str) -> (String, String) {
    (a.to_string(), b.to_string())
}

#[test]
fn question_needs_a_prompt_and_a_key() {
    let s = fresh_state();
    assert_eq!(prepare_question(&s, 1, None).err(), Some("No prompt provided".to_string()));
    assert_eq!(prepare_question(&s, 1, Some("hi")).err(), Some("Set up your key first with /key set.".to_string()));
}

#[test]
fn first_question_goes_alone() {
    let s = state_with_key(1);
    let msgs = prepare_question(&s, 1, Some("hello?")).unwrap();
    assert_eq!(pairs(&msgs), vec![pair("user", "hello?")]);
}

#[test]
fn context_and_history_come_before_the_question() {
    let mut s = state_with_key(2);
    add_context_chunk(&mut s, 2, "c1").unwrap();
    add_context_chunk(&mut s, 2, "c2").unwrap();
    persist_exchange(&mut s, 2, "q1", "a1").unwrap();
    let msgs = prepare_question(&s, 2, Some("q2")).unwrap();
    assert_eq!(
        pairs(&msgs),
        vec![
            pair("system", "Additional context from the user:\n\nc1\n\nc2"),
            pair("user", "q1"),
            pair("assistant", "a1"),
            pair("user", "q2"),
        ]
    );
}

#[test]
fn stored_exchange_reads_back() {
    let mut s = state_with_key(3);
    persist_exchange(&mut s, 3, "вопрос", "ответ ✓").unwrap();
    let h = recent_history(&s, 3).unwrap();
    assert_eq!(h, vec![pair("user", "вопрос"), pair("assistant", "ответ ✓")]);
    assert!(recent_history(&s, 4).unwrap().is_empty());
}

#[test]
fn exchange_needs_the_key() {
    let mut s = state_with_key(4);
    s.clear_key(4);
    assert!(matches!(persist_exchange(&mut s, 4, "q", "a"), Err(StoreError::NoKey)));
    assert!(s.db.recent_messages(4, 10).unwrap().is_empty());
    assert_eq!(StoreError::NoKey.message(), "No key loaded");
}

#[test]
fn unreadable_blobs_are_skipped() {
    let mut s = state_with_key(5);
    add_context_chunk(&mut s, 5, "good").unwrap();
    s.db.insert_chunk(5, 9, &[7u8; 40]).unwrap();
    s.db.append_message(5, "user", &[1u8; 30]).unwrap();
    let bad_utf8 = s.with_key(5, |k| encrypt(k, &[0xff, 0xfe]).unwrap()).unwrap();
    s.db.append_message(5, "assistant", &bad_utf8).unwrap();
    persist_exchange(&mut s, 5, "q", "a").unwrap();
    let msgs = prepare_question(&s, 5, Some("next")).unwrap();
    assert_eq!(
        pairs(&msgs),
        vec![
            pair("system", "Additional context from the user:\n\ngood"),
            pair("user", "q"),
            pair("assistant", "a"),
            pair("user", "next"),
        ]
    );
    let none = s.with_key(5, |k| decrypt_text(k, &bad_utf8)).unwrap();
    assert_eq!(none, None);
}

#[test]
fn history_keeps_the_latest_messages() {
    let mut s = state_with_key(6);
    for i in 0..(HISTORY_LIMIT / 2 + 1) {
        persist_exchange(&mut s, 6, &format!("q{i}"), &format!("a{i}")).unwrap();
    }
    let h = recent_history(&s, 6).unwrap();
    assert_eq!(h.len(), HISTORY_LIMIT as usize);
    assert_eq!(h[0], pair("user", "q1"));
    assert_eq!(h[h.len() - 1], pair("assistant", "a64"));
}

#[test]
fn real_answers_are_kept_and_failures_are_not() {
    assert_eq!(
        settle_answer(Ok(Some("Hello, world".to_string()))),
        ("Hello, world".to_string(), Some("Hello, world".to_string()))
    );
    assert_eq!(settle_answer(Ok(Some(String::new()))), (String::new(), Some(String::new())));
    assert_eq!(settle_answer(Ok(None)), ("No response found".to_string(), None));
    assert_eq!(
        settle_answer(Err("timed out".to_string())),
        ("Could not reach OpenAI: timed out".to_string(), None)
    );
}

#[test]
fn joining_and_assembling() {
    let parts = vec!["a".to_string(), "b".to_string(), "c".to_string()];
    assert_eq!(join_texts(&parts, ", "), "a, b, c");
    assert_eq!(join_texts(&[], ", "), "");
    assert_eq!(join_texts(&parts[..1], ", "), "a");
    let msgs = chat_messages("", vec![pair("user", "x")], "y");
    assert_eq!(pairs(&msgs), vec![pair("user", "x"), pair("user", "y")]);
    let msgs = chat_messages("ctx", vec![], "y");
    assert_eq!(pairs(&msgs), vec![pair("system", "Additional context from the user:\n\nctx"), pair("user", "y")]);
}

#[test]
fn model_replies_and_refusals() {
    assert_eq!(first_answer(vec!["one".to_string(), "two".to_string()]), Some("one".to_string()));
    assert_eq!(first_answer(vec![]), None);
    assert_eq!(
        refusal("404 Not Found", Some("The model does not exist".to_string()), "{...}"),
        "OpenAI 404 Not Found: The model does not exist"
    );
    assert_eq!(refusal("502 Bad Gateway", None, "  upstream down\n"), "OpenAI 502 Bad Gateway: upstream down");
}
