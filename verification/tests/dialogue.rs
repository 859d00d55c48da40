use k1f_bot::chat::StoreError;
use k1f_bot::crypto::derive_key;
use k1f_bot::db::{DbError, DbHandle, UserRow};
use k1f_bot::dialogue::{
    add_context_chunk, callback_reply, context_added_result_reply, key_change_result_reply, key_set_result_reply,
    on_message, owner_message_sent, owner_note_text, owner_photo_sent, reset_result_reply, start_command_reply,
    user_info_text, whats_next, CtxAction, Incoming, Keyboard, Next, Reply, State, Work, HELP_MSG,
};
use k1f_bot::key_ops::KeyError;
use k1f_bot::state::AppState;

fn fresh_state() -> AppState {
    AppState::new(DbHandle::open(":memory:").unwrap())
}

fn state_with_key(tg_id: i64) -> AppState {
    let mut s = fresh_state();
    let row = UserRow { tg_id, pw_hash: vec![0; 32], verifier_salt: vec![1; 16], key_salt: vec![2; 16] };
    s.db.insert_user(&row).unwrap();
    s.set_key(tg_id, derive_key(b"pw", &[2u8; 16]).unwrap());
    s
}

fn press(state: &mut AppState, tg_id: i64, data: &str) -> Reply {
    callback_reply(state, tg_id, 42, Some("bob"), data).unwrap()
}

#[test]
fn unknown_callback_data_is_reported() {
    let mut s = fresh_state();
    let r = press(&mut s, 1, "nonsense");
    assert_eq!(r.text, "Unknown action: nonsense");
    assert!(r.keyboard.is_none());
    assert!(!r.edit && !r.markdown);
    assert!(matches!(r.next, Next::Stay));
}

#[test]
fn menus_replace_the_pressed_message() {
    let mut s = fresh_state();
    let r = press(&mut s, 1, "main");
    assert_eq!(r.text, "Главное меню");
    assert!(r.edit);
    assert!(matches!(r.keyboard, Some(Keyboard::Main)));
    let r = press(&mut s, 1, "help");
    assert_eq!(r.text, HELP_MSG);
    assert!(HELP_MSG.starts_with("🔑 Ключ"));
    assert!(matches!(r.keyboard, Some(Keyboard::BackToMain)));
    let r = press(&mut s, 1, "uuid");
    assert_eq!(r.text, "Сколько UUID сгенерировать?");
    assert!(matches!(r.keyboard, Some(Keyboard::Uuid)));
}

#[test]
fn profile_shows_id_and_user_name() {
    let mut s = fresh_state();
    let r = press(&mut s, 1, "profile");
    assert_eq!(r.text, "UserId: 42\nUserName: bob");
    let r = callback_reply(&mut s, 1, 7, None, "profile").unwrap();
    assert_eq!(r.text, "UserId: 7\nUserName: n/a");
}

#[test]
fn key_flows_without_a_key() {
    let mut s = fresh_state();
    let r = press(&mut s, 1, "key");
    assert!(r.text.starts_with("🔑 Ключ шифрования\nКлюч не задан."));
    assert!(matches!(r.keyboard, Some(Keyboard::Key)));
    let r = press(&mut s, 1, "key:set");
    assert!(r.text.starts_with("Отправьте passphrase."));
    assert!(matches!(r.next, Next::Enter(State::AwaitingPassphraseSet)));
    let r = press(&mut s, 1, "key:change");
    assert!(r.text.starts_with("Ключ не загружен."));
    assert!(matches!(r.next, Next::Stay));
    let r = press(&mut s, 1, "ctx");
    assert_eq!(r.text, "Сначала задайте ключ.");
    assert!(!r.edit);
    assert!(matches!(r.keyboard, Some(Keyboard::Key)));
    let r = press(&mut s, 1, "gpt");
    assert_eq!(r.text, "Сначала задайте ключ — GPT хранит историю в зашифрованном виде.");
    assert!(matches!(r.next, Next::Stay));
}

#[test]
fn key_flows_with_a_key() {
    let mut s = state_with_key(3);
    let r = press(&mut s, 3, "key");
    assert_eq!(r.text, "🔑 Ключ шифрования\nКлюч загружен.");
    let r = press(&mut s, 3, "key:set");
    assert_eq!(r.text, "Ключ уже загружен. Используйте «Сменить ключ».");
    assert!(matches!(r.next, Next::Stay));
    let r = press(&mut s, 3, "key:change");
    assert_eq!(r.text, "Отправьте ТЕКУЩУЮ passphrase.");
    assert!(matches!(r.next, Next::Enter(State::AwaitingOldPassphrase)));
    let r = press(&mut s, 3, "ctx");
    assert_eq!(r.text, "📦 Контекст для GPT");
    assert!(r.edit);
    let r = press(&mut s, 3, "ctx:add");
    assert!(matches!(r.next, Next::Enter(State::AwaitingContextText { action: CtxAction::Add })));
    let r = press(&mut s, 3, "gpt");
    assert!(matches!(r.next, Next::Enter(State::AwaitingGptQuestion)));
    let r = press(&mut s, 3, "ping");
    assert!(matches!(r.next, Next::Enter(State::AwaitingPingTarget)));
    let r = press(&mut s, 3, "msg");
    assert!(matches!(r.next, Next::Enter(State::AwaitingOwnerMessage)));
    let r = press(&mut s, 3, "photo");
    assert!(matches!(r.next, Next::Enter(State::AwaitingOwnerPhoto)));
}

#[test]
fn context_chunks_through_the_buttons() {
    let mut s = state_with_key(5);
    assert_eq!(add_context_chunk(&mut s, 5, "first").unwrap(), 1);
    assert_eq!(add_context_chunk(&mut s, 5, "second").unwrap(), 2);

    let r = press(&mut s, 5, "ctx:list");
    assert_eq!(r.text, "Выберите чанк для просмотра:");
    assert!(r.edit);
    assert!(matches!(&r.keyboard, Some(Keyboard::ChunkList(v)) if *v == vec![1, 2]));

    let r = press(&mut s, 5, "ctx:show:2");
    assert_eq!(r.text, "Чанк #2:\n\nsecond");
    assert!(matches!(r.keyboard, Some(Keyboard::ChunkViewer(2))));
    let r = press(&mut s, 5, "ctx:show:7");
    assert_eq!(r.text, "Чанк 7 не найден.");
    assert!(matches!(r.keyboard, Some(Keyboard::Ctx)));

    let r = press(&mut s, 5, "ctx:del:1");
    assert_eq!(r.text, "Чанк 1 удалён. Остальные части промта:");
    assert!(matches!(&r.keyboard, Some(Keyboard::ChunkList(v)) if *v == vec![2]));
    let r = press(&mut s, 5, "ctx:del:1");
    assert_eq!(r.text, "Чанк 1 не найден. Остальные части промта:");

    assert_eq!(add_context_chunk(&mut s, 5, "third").unwrap(), 3);
    let r = press(&mut s, 5, "ctx:clr");
    assert_eq!(r.text, "Удалено чанков: 2.");
    assert!(matches!(r.keyboard, Some(Keyboard::Ctx)));
    let r = press(&mut s, 5, "ctx:list");
    assert_eq!(r.text, "Чанков контекста пока нет.");
    assert!(!r.edit);

    assert_eq!(add_context_chunk(&mut s, 5, "again").unwrap(), 1);
    let r = press(&mut s, 5, "ctx:del:1");
    assert_eq!(r.text, "Чанк 1 удалён. Это была последняя часть.");
    assert!(matches!(r.keyboard, Some(Keyboard::Ctx)));
}

#[test]
fn chunk_is_hidden_without_the_key() {
    let mut s = state_with_key(6);
    add_context_chunk(&mut s, 6, "secret").unwrap();
    s.clear_key(6);
    let r = press(&mut s, 6, "ctx:show:1");
    assert_eq!(r.text, "Чанк 1 не найден.");
    assert!(matches!(add_context_chunk(&mut s, 6, "more"), Err(StoreError::NoKey)));
    assert_eq!(s.db.chunk_seqs(6).unwrap(), vec![1]);
}

#[test]
fn key_clear_wipes_then_reports_nothing_left() {
    let mut s = state_with_key(8);
    add_context_chunk(&mut s, 8, "x").unwrap();
    let r = press(&mut s, 8, "key:clear");
    assert!(r.text.starts_with("Ключ и все зашифрованные данные"));
    assert!(matches!(r.keyboard, Some(Keyboard::Main)));
    assert!(!s.has_key(8));
    assert!(s.db.get_user(8).unwrap().is_none());
    assert!(s.db.chunk_seqs(8).unwrap().is_empty());
    let r = press(&mut s, 8, "key:clear");
    assert_eq!(r.text, "Нечего удалять — ключ не был задан.");
}

#[test]
fn uuid_buttons_render_markdown_lines() {
    let mut s = fresh_state();
    let r = press(&mut s, 1, "uuid:3");
    assert!(r.markdown);
    assert!(matches!(r.keyboard, Some(Keyboard::Main)));
    let lines: Vec<&str> = r.text.lines().collect();
    assert_eq!(lines.len(), 3);
    assert!(lines[2].starts_with("3\\.  `"));
}

#[test]
fn messages_move_the_dialogue() {
    let text = |t: &str| Incoming::Text(t.to_string());
    match on_message(&State::Start, &text("hi")) {
        Work::Reply(r) => {
            assert_eq!(r.text, "Чтобы выбрать действие — откройте меню кнопкой ниже или командой /start.");
            assert!(matches!(r.keyboard, Some(Keyboard::Main)));
        },
        _ => panic!("expected a reply"),
    }
    assert!(matches!(on_message(&State::AwaitingPassphraseSet, &text("p")), Work::SetKey(p) if p == "p"));
    match on_message(&State::AwaitingPassphraseSet, &Incoming::Other) {
        Work::Reply(r) => assert_eq!(r.text, "Пожалуйста, отправьте текст."),
        _ => panic!("expected a reply"),
    }
    match on_message(&State::AwaitingOldPassphrase, &text("old")) {
        Work::Reply(r) => {
            assert_eq!(r.text, "Send the NEW passphrase.");
            assert!(matches!(r.next, Next::Enter(State::AwaitingNewPassphrase { old }) if old == "old"));
        },
        _ => panic!("expected a reply"),
    }
    let st = State::AwaitingNewPassphrase { old: "old".to_string() };
    assert!(matches!(on_message(&st, &text("new")), Work::ChangeKey { old, new } if old == "old" && new == "new"));
    match on_message(&st, &Incoming::Photo("f".to_string())) {
        Work::Reply(r) => assert_eq!(r.text, "Please send text."),
        _ => panic!("expected a reply"),
    }
    let ctx = State::AwaitingContextText { action: CtxAction::Add };
    assert!(matches!(on_message(&ctx, &text("c")), Work::AddContext(c) if c == "c"));
    assert!(matches!(on_message(&State::AwaitingPingTarget, &text("8.8.8.8")), Work::Ping(t) if t == "8.8.8.8"));
    assert!(matches!(on_message(&State::AwaitingGptQuestion, &text("why")), Work::AskGpt(q) if q == "why"));
    assert!(matches!(on_message(&State::AwaitingOwnerMessage, &text("yo")), Work::ForwardText(t) if t == "yo"));
    assert!(matches!(
        on_message(&State::AwaitingOwnerPhoto, &Incoming::Photo("id9".to_string())),
        Work::ForwardPhoto(id) if id == "id9"
    ));
    match on_message(&State::AwaitingOwnerPhoto, &text("no")) {
        Work::Reply(r) => assert_eq!(r.text, "Пожалуйста, отправьте фото."),
        _ => panic!("expected a reply"),
    }
}

#[test]
fn outcome_replies() {
    let r = key_set_result_reply(&Ok(()));
    assert_eq!(r.text, "Ключ установлен. Теперь доступны «Контекст» и «Спросить GPT».");
    assert!(matches!(r.next, Next::Exit));
    let r = key_set_result_reply(&Err(KeyError::WrongPassphrase));
    assert!(r.text.starts_with("Неверная passphrase."));
    assert!(matches!(r.next, Next::Stay));
    let r = key_set_result_reply(&Err(KeyError::NoUser(1)));
    assert_eq!(r.text, "Не удалось установить ключ: No key set for your account. Use /key set first.");
    assert!(matches!(r.next, Next::Exit));

    assert_eq!(key_change_result_reply(&Ok(())).text, "Key changed; all data re-encrypted under the new key.");
    assert_eq!(key_change_result_reply(&Err(KeyError::WrongPassphrase)).text, "Wrong old passphrase; key unchanged.");
    let r = key_change_result_reply(&Err(KeyError::Db(DbError::ChunkNotFound { tg_id: 4, seq: 2 })));
    assert_eq!(r.text, "Could not change key: Context chunk 2 not found for user 4");

    assert_eq!(context_added_result_reply(&Ok(3)).text, "Context chunk 3 added.");
    assert_eq!(context_added_result_reply(&Err(StoreError::NoKey)).text, "Error: No key loaded");

    assert_eq!(reset_result_reply(&Ok(())).text, "История диалога очищена.");
    assert_eq!(start_command_reply().text, "Привет! Выбери действие:");
    assert_eq!(whats_next().text, "Что дальше?");
    assert_eq!(owner_message_sent().text, "Message sent to the owner. Thanks unknown internet dweller.");
    assert_eq!(owner_photo_sent().text, "Фото отправлено в астрал.");
    assert_eq!(owner_note_text("hi"), "✉️ hi");
    assert_eq!(user_info_text(-5, None, "2024-01-01"), "UserId: -5\nUserName: n/a\ndate: 2024-01-01");
    assert_eq!(user_info_text(5, Some("Ann"), "d"), "UserId: 5\nUserName: Ann\ndate: d");
}
