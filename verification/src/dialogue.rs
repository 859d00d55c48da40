//! The bot's conversation: what it answers to a button press or a message,
//! and which dialogue state the chat moves to.
//!
//! A chat is in a dialogue state (waiting for a passphrase, for context text,
//! ...). An inline-button press carries a `callback_data` string; a message
//! carries text or a photo. The functions here decide the reply (its text,
//! keyboard, whether it replaces the message the button sat on) and the
//! next state; the storage work they need is done on an [`AppState`].
use vstd::prelude::*;

use crate::chat::{blob_text, decrypt_text, is_store_error_text, readable_texts, StoreError};
use vstd::utf8::encode_utf8;
use crate::crypto::{decrypt_outcome, encrypt, seal_accepts, CryptoError};
use crate::db::{
    chunks_without, has_chunk, is_db_error_text, lemma_chunk_seqs_unique, lists_chunk_seqs, user_chunk_blobs,
    user_chunk_seqs, DbError,
};
use crate::key_ops::{delete_user, user_deleted, KeyError};
use crate::menu::{parsed_action, MenuAction};
use crate::state::AppState;
use crate::text::{decimal, push_decimal, push_signed_decimal, push_str, signed_decimal};
use crate::uuid::{is_uuid_rendering, render};

verus! {

/// The help text shown by the «❓ Справка» button.
pub const HELP_MSG: &'static str = "\
🔑 Ключ — управление ключом шифрования (set / change / clear).
📦 Контекст — куски контекста для GPT (add / list / clear).
💬 Спросить GPT — вопрос с использованием контекста и истории (история шифруется).
🌐 Ping — проверить хост/IP/URL.
🔮 UUID — сгенерировать uuid v4.
👤 Профиль — ваш id.
 Сбросить историю GPT можно командой /reset.

Данные шифруются per-user ключом (Argon2id из вашей passphrase).
";

/// What the context text that a chat is waiting for will do.
#[derive(Debug, Clone, Copy, PartialEq, Eq, Structural)]
pub enum CtxAction {
    Add,
}

/// The dialogue state of a chat.
#[derive(Debug, Clone)]
pub enum State {
    Start,
    /// Capturing a passphrase for first-time setup (or restore).
    AwaitingPassphraseSet,
    /// Key change, step 1: capture the old passphrase.
    AwaitingOldPassphrase,
    /// Key change, step 2: capture the new passphrase.
    AwaitingNewPassphrase { old: String },
    /// Capturing the text of a context chunk.
    AwaitingContextText { action: CtxAction },
    /// Waiting for a ping target (host, IP or URL).
    AwaitingPingTarget,
    /// Waiting for a GPT question.
    AwaitingGptQuestion,
    /// Waiting for a text message to forward to the owner.
    AwaitingOwnerMessage,
    /// Waiting for a photo to forward to the owner.
    AwaitingOwnerPhoto,
}

/// What becomes of the dialogue after a reply.
#[derive(Debug, Clone)]
pub enum Next {
    /// The chat stays in its state.
    Stay,
    /// The chat moves to this state.
    Enter(State),
    /// The dialogue ends (back to `Start`).
    Exit,
}

/// The inline keyboard attached to a reply.
#[derive(Debug, Clone)]
pub enum Keyboard {
    Main,
    Key,
    Ctx,
    BackToMain,
    Uuid,
    /// The list of these chunk numbers.
    ChunkList(Vec<i64>),
    /// The viewer of this chunk.
    ChunkViewer(i64),
}

/// A reply to the chat.
#[derive(Debug, Clone)]
pub struct Reply {
    pub text: String,
    pub keyboard: Option<Keyboard>,
    /// Replace the message the pressed button sat on, when there is one,
    /// instead of sending a new message.
    pub edit: bool,
    /// The text is MarkdownV2.
    pub markdown: bool,
    pub next: Next,
}

/// A dialogue state seen as a mathematical value.
pub enum StateView {
    Start,
    AwaitingPassphraseSet,
    AwaitingOldPassphrase,
    AwaitingNewPassphrase(Seq<char>),
    AwaitingContextText(CtxAction),
    AwaitingPingTarget,
    AwaitingGptQuestion,
    AwaitingOwnerMessage,
    AwaitingOwnerPhoto,
}

/// What becomes of the dialogue, seen as a mathematical value.
pub enum NextView {
    Stay,
    Enter(StateView),
    Exit,
}

/// A keyboard seen as a mathematical value.
pub enum KeyboardView {
    Main,
    Key,
    Ctx,
    BackToMain,
    Uuid,
    ChunkList(Seq<i64>),
    ChunkViewer(i64),
}

/// A reply seen as a mathematical value.
pub struct ReplyView {
    pub text: Seq<char>,
    pub keyboard: Option<KeyboardView>,
    pub edit: bool,
    pub markdown: bool,
    pub next: NextView,
}

impl View for State {
    type V = StateView;

    open spec fn view(&self) -> StateView {
        match self {
            State::Start => StateView::Start,
            State::AwaitingPassphraseSet => StateView::AwaitingPassphraseSet,
            State::AwaitingOldPassphrase => StateView::AwaitingOldPassphrase,
            State::AwaitingNewPassphrase { old } => StateView::AwaitingNewPassphrase(old@),
            State::AwaitingContextText { action } => StateView::AwaitingContextText(*action),
            State::AwaitingPingTarget => StateView::AwaitingPingTarget,
            State::AwaitingGptQuestion => StateView::AwaitingGptQuestion,
            State::AwaitingOwnerMessage => StateView::AwaitingOwnerMessage,
            State::AwaitingOwnerPhoto => StateView::AwaitingOwnerPhoto,
        }
    }
}

impl View for Next {
    type V = NextView;

    open spec fn view(&self) -> NextView {
        match self {
            Next::Stay => NextView::Stay,
            Next::Enter(s) => NextView::Enter(s@),
            Next::Exit => NextView::Exit,
        }
    }
}

impl View for Keyboard {
    type V = KeyboardView;

    open spec fn view(&self) -> KeyboardView {
        match self {
            Keyboard::Main => KeyboardView::Main,
            Keyboard::Key => KeyboardView::Key,
            Keyboard::Ctx => KeyboardView::Ctx,
            Keyboard::BackToMain => KeyboardView::BackToMain,
            Keyboard::Uuid => KeyboardView::Uuid,
            Keyboard::ChunkList(seqs) => KeyboardView::ChunkList(seqs@),
            Keyboard::ChunkViewer(seq) => KeyboardView::ChunkViewer(*seq),
        }
    }
}

impl View for Reply {
    type V = ReplyView;

    open spec fn view(&self) -> ReplyView {
        ReplyView {
            text: self.text@,
            keyboard: match self.keyboard {
                Some(k) => Some(k@),
                None => None,
            },
            edit: self.edit,
            markdown: self.markdown,
            next: self.next@,
        }
    }
}

/// A plain-text reply.
pub open spec fn said(text: Seq<char>, keyboard: Option<KeyboardView>, edit: bool, next: NextView) -> ReplyView {
    ReplyView { text, keyboard, edit, markdown: false, next }
}

/// A plain-text reply sent as a new message.
fn say(text: String, keyboard: Option<Keyboard>, next: Next) -> (r: Reply)
    ensures
        r@ == said(text@, r@.keyboard, false, next@),
        r@.keyboard == match keyboard {
            Some(k) => Some(k@),
            None => None::<KeyboardView>,
        },
{
    Reply { text, keyboard, edit: false, markdown: false, next }
}

/// A plain-text reply that replaces the message of the pressed button.
fn show(text: String, keyboard: Keyboard) -> (r: Reply)
    ensures
        r@ == said(text@, Some(keyboard@), true, NextView::Stay),
{
    Reply { text, keyboard: Some(keyboard), edit: true, markdown: false, next: Next::Stay }
}

/// A string with the given text.
fn text(s: &str) -> (r: String)
    ensures
        r@ == s@,
{
    String::from_str(s)
}

// ---------------------------------------------------------------------------
// Button presses
// ---------------------------------------------------------------------------

/// The profile text: the user's id and user name (`n/a` when there is none).
pub open spec fn profile_text(from_id: u64, username: Option<Seq<char>>) -> Seq<char> {
    "UserId: "@ + decimal(from_id as nat) + "\nUserName: "@ + match username {
        Some(u) => u,
        None => "n/a"@,
    }
}

/// The key submenu's header: whether the key is in memory.
pub open spec fn key_status_text(has_key: bool) -> Seq<char> {
    "🔑 Ключ шифрования\n"@ + if has_key {
        "Ключ загружен."@
    } else {
        "Ключ не задан. Либо произошла перезагрузка и ключ был стерт из памяти приложения, но его хэш сохранился в базе. Введите тот же ключ или смените его на новый."@
    }
}

/// Whether pressing the button needs the database or chance: the reply
/// then depends on what they give.
pub open spec fn needs_work(action: MenuAction) -> bool {
    match action {
        MenuAction::KeyClear | MenuAction::CtxList | MenuAction::CtxShow(_) | MenuAction::CtxDel(_)
        | MenuAction::CtxClear | MenuAction::UuidN(_) => true,
        _ => false,
    }
}

/// The reply to a button whose reply depends only on whether the user's key
/// is in memory.
pub open spec fn menu_reply(action: MenuAction, has_key: bool, from_id: u64, username: Option<Seq<char>>) -> ReplyView {
    match action {
        MenuAction::Main => said("Главное меню"@, Some(KeyboardView::Main), true, NextView::Stay),
        MenuAction::Help => said(HELP_MSG@, Some(KeyboardView::BackToMain), true, NextView::Stay),
        MenuAction::Profile => said(profile_text(from_id, username), Some(KeyboardView::BackToMain), true, NextView::Stay),
        MenuAction::Key => said(key_status_text(has_key), Some(KeyboardView::Key), true, NextView::Stay),
        MenuAction::KeySet => if has_key {
            said("Ключ уже загружен. Используйте «Сменить ключ»."@, None, false, NextView::Stay)
        } else {
            said(
                "Отправьте passphrase. Она не сохраняется — только её Argon2id-верификатор. НЕ ИСПОЛЬЗУЙТЕ СВОЙ НАСТОЯЩИЙ ПАРОЛЬ! ЛУЧШЕ ВЫДУМАТЬ СЛУЧАЙНУЮ ФРАЗУ, КОТОРУЮ ВЫ НЕ ЗАБУДЕТЕ."@,
                None,
                false,
                NextView::Enter(StateView::AwaitingPassphraseSet),
            )
        },
        MenuAction::KeyChange => if has_key {
            said("Отправьте ТЕКУЩУЮ passphrase."@, None, false, NextView::Enter(StateView::AwaitingOldPassphrase))
        } else {
            said(
                "Ключ не загружен. Сначала «Установить ключ». Если Вы уже загружали ключ и видите это сообщение, значит произошла перезагрузка и ключ был стерт из памяти приложения, но его хэш сохранился в базе. Введите тот же ключ или смените его на новый."@,
                None,
                false,
                NextView::Stay,
            )
        },
        MenuAction::Ctx => if has_key {
            said("📦 Контекст для GPT"@, Some(KeyboardView::Ctx), true, NextView::Stay)
        } else {
            said("Сначала задайте ключ."@, Some(KeyboardView::Key), false, NextView::Stay)
        },
        MenuAction::CtxAdd => said(
            "Отправьте текст чанка контекста."@,
            None,
            false,
            NextView::Enter(StateView::AwaitingContextText(CtxAction::Add)),
        ),
        MenuAction::Gpt => if has_key {
            said("Отправьте вопрос для GPT."@, None, false, NextView::Enter(StateView::AwaitingGptQuestion))
        } else {
            said("Сначала задайте ключ — GPT хранит историю в зашифрованном виде."@, Some(KeyboardView::Key), false, NextView::Stay)
        },
        MenuAction::Ping => said(
            "Отправьте цель для ping (8.8.8.8 | https://google.com | google.com)."@,
            None,
            false,
            NextView::Enter(StateView::AwaitingPingTarget),
        ),
        MenuAction::Uuid => said("Сколько UUID сгенерировать?"@, Some(KeyboardView::Uuid), true, NextView::Stay),
        MenuAction::Msg => said("Отправьте текст сообщения в ноосферу"@, None, false, NextView::Enter(StateView::AwaitingOwnerMessage)),
        MenuAction::Photo => said("Отправьте фото в ноосферу"@, None, false, NextView::Enter(StateView::AwaitingOwnerPhoto)),
        _ => said(Seq::empty(), None, false, NextView::Stay),
    }
}

/// The reply to a button that needs neither the database nor chance.
pub fn menu_action_reply(action: &MenuAction, has_key: bool, from_id: u64, username: Option<&str>) -> (r: Reply)
    requires
        !needs_work(*action),
    ensures
        r@ == menu_reply(*action, has_key, from_id, match username {
            Some(u) => Some(u@),
            None => None,
        }),
{
    match action {
        MenuAction::Main => show(text("Главное меню"), Keyboard::Main),
        MenuAction::Help => show(text(HELP_MSG), Keyboard::BackToMain),
        MenuAction::Profile => {
            let mut s = text("UserId: ");
            push_decimal(&mut s, from_id);
            push_str(&mut s, "\nUserName: ");
            match username {
                Some(u) => push_str(&mut s, u),
                None => push_str(&mut s, "n/a"),
            }
            show(s, Keyboard::BackToMain)
        },
        MenuAction::Key => {
            let mut s = text("🔑 Ключ шифрования\n");
            if has_key {
                push_str(&mut s, "Ключ загружен.");
            } else {
                push_str(
                    &mut s,
                    "Ключ не задан. Либо произошла перезагрузка и ключ был стерт из памяти приложения, но его хэш сохранился в базе. Введите тот же ключ или смените его на новый.",
                );
            }
            show(s, Keyboard::Key)
        },
        MenuAction::KeySet => if has_key {
            say(text("Ключ уже загружен. Используйте «Сменить ключ»."), None, Next::Stay)
        } else {
            say(
                text(
                    "Отправьте passphrase. Она не сохраняется — только её Argon2id-верификатор. НЕ ИСПОЛЬЗУЙТЕ СВОЙ НАСТОЯЩИЙ ПАРОЛЬ! ЛУЧШЕ ВЫДУМАТЬ СЛУЧАЙНУЮ ФРАЗУ, КОТОРУЮ ВЫ НЕ ЗАБУДЕТЕ.",
                ),
                None,
                Next::Enter(State::AwaitingPassphraseSet),
            )
        },
        MenuAction::KeyChange => if has_key {
            say(text("Отправьте ТЕКУЩУЮ passphrase."), None, Next::Enter(State::AwaitingOldPassphrase))
        } else {
            say(
                text(
                    "Ключ не загружен. Сначала «Установить ключ». Если Вы уже загружали ключ и видите это сообщение, значит произошла перезагрузка и ключ был стерт из памяти приложения, но его хэш сохранился в базе. Введите тот же ключ или смените его на новый.",
                ),
                None,
                Next::Stay,
            )
        },
        MenuAction::Ctx => if has_key {
            show(text("📦 Контекст для GPT"), Keyboard::Ctx)
        } else {
            say(text("Сначала задайте ключ."), Some(Keyboard::Key), Next::Stay)
        },
        MenuAction::CtxAdd => say(
            text("Отправьте текст чанка контекста."),
            None,
            Next::Enter(State::AwaitingContextText { action: CtxAction::Add }),
        ),
        MenuAction::Gpt => if has_key {
            say(text("Отправьте вопрос для GPT."), None, Next::Enter(State::AwaitingGptQuestion))
        } else {
            say(text("Сначала задайте ключ — GPT хранит историю в зашифрованном виде."), Some(Keyboard::Key), Next::Stay)
        },
        MenuAction::Ping => say(
            text("Отправьте цель для ping (8.8.8.8 | https://google.com | google.com)."),
            None,
            Next::Enter(State::AwaitingPingTarget),
        ),
        MenuAction::Uuid => show(text("Сколько UUID сгенерировать?"), Keyboard::Uuid),
        MenuAction::Msg => say(text("Отправьте текст сообщения в ноосферу"), None, Next::Enter(State::AwaitingOwnerMessage)),
        MenuAction::Photo => say(text("Отправьте фото в ноосферу"), None, Next::Enter(State::AwaitingOwnerPhoto)),
        _ => say(String::new(), None, Next::Stay),
    }
}

/// Whether the state is unchanged: the same keys in memory and the same
/// tables.
pub open spec fn unchanged(before: AppState, after: AppState) -> bool {
    after.key_map() == before.key_map() && after.db@ == before.db@
}

/// The reply after a full wipe of a user, by whether there was anything to
/// remove.
pub open spec fn wiped_reply(removed: bool) -> ReplyView {
    if removed {
        said(
            "Ключ и все зашифрованные данные (контекст, история) полностью удалены. Теперь «Установить ключ» создаст всё с чистого листа."@,
            Some(KeyboardView::Main),
            false,
            NextView::Stay,
        )
    } else {
        said("Нечего удалять — ключ не был задан."@, Some(KeyboardView::Main), false, NextView::Stay)
    }
}

/// Whether a reply reports, with the main menu, that a step failed: the text
/// is the prefix followed by the error's message.
pub open spec fn failure_reply(rep: ReplyView, prefix: Seq<char>, e: KeyError) -> bool {
    &&& prefix.is_prefix_of(rep.text)
    &&& crate::key_ops::is_key_error_text(e, rep.text.skip(prefix.len() as int))
    &&& rep.keyboard == Some(KeyboardView::Main)
    &&& !rep.edit && !rep.markdown
}

/// The reply to the list of a user's chunk numbers.
pub open spec fn chunk_list_reply(seqs: Seq<i64>) -> ReplyView {
    if seqs.len() == 0 {
        said("Чанков контекста пока нет."@, Some(KeyboardView::Ctx), false, NextView::Stay)
    } else {
        said("Выберите чанк для просмотра:"@, Some(KeyboardView::ChunkList(seqs)), true, NextView::Stay)
    }
}

/// The text of chunk `seq` of the user: present when the key is in memory,
/// the chunk exists and it decrypts to UTF-8.
pub open spec fn chunk_body(state: AppState, tg_id: i64, seq: i64) -> Option<Seq<char>> {
    if state.key_map().contains_key(tg_id) && has_chunk(state.db@, tg_id, seq) {
        blob_text(state.key_map()[tg_id], state.db@.chunks[(tg_id, seq)])
    } else {
        None
    }
}

/// The reply that shows a chunk.
pub open spec fn chunk_reply(seq: i64, body: Option<Seq<char>>) -> ReplyView {
    match body {
        Some(b) => said(
            "Чанк #"@ + signed_decimal(seq as int) + ":\n\n"@ + b,
            Some(KeyboardView::ChunkViewer(seq)),
            false,
            NextView::Stay,
        ),
        None => said("Чанк "@ + signed_decimal(seq as int) + " не найден."@, Some(KeyboardView::Ctx), false, NextView::Stay),
    }
}

/// The reply after deleting a chunk: whether it existed, then the chunks
/// that are left.
pub open spec fn chunk_deleted_reply(seq: i64, removed: bool, left: Seq<i64>) -> ReplyView {
    let head = "Чанк "@ + signed_decimal(seq as int) + if removed { " удалён."@ } else { " не найден."@ };
    if left.len() == 0 {
        said(head + " Это была последняя часть."@, Some(KeyboardView::Ctx), false, NextView::Stay)
    } else {
        said(head + " Остальные части промта:"@, Some(KeyboardView::ChunkList(left)), false, NextView::Stay)
    }
}

/// The reply after deleting all of a user's chunks.
pub open spec fn chunks_cleared_reply(n: nat) -> ReplyView {
    said("Удалено чанков: "@ + decimal(n) + "."@, Some(KeyboardView::Ctx), false, NextView::Stay)
}

/// Whether a reply shows `uuid_count(n)` fresh UUIDs (MarkdownV2) with the
/// main menu.
pub open spec fn uuid_reply(rep: ReplyView, n: u8) -> bool {
    &&& is_uuid_rendering(n, rep.text)
    &&& rep.keyboard == Some(KeyboardView::Main)
    &&& !rep.edit && rep.markdown
    &&& rep.next is Stay
}

/// A reply result seen through the reply's view.
pub open spec fn reply_result(r: Result<Reply, DbError>) -> Result<ReplyView, DbError> {
    match r {
        Ok(rep) => Ok(rep@),
        Err(e) => Err(e),
    }
}

/// What pressing a button with this action does to the state and answers.
pub open spec fn callback_done(
    before: AppState,
    after: AppState,
    tg_id: i64,
    from_id: u64,
    username: Option<Seq<char>>,
    action: MenuAction,
    r: Result<ReplyView, DbError>,
) -> bool {
    let has = before.key_map().contains_key(tg_id);
    match action {
        MenuAction::KeyClear => {
            &&& after.key_map() == before.key_map().remove(tg_id)
            &&& r matches Ok(rep) && {
                ||| user_deleted(before, after, tg_id) && rep == wiped_reply(
                    has || before.db@.users.contains_key(tg_id),
                )
                ||| after.db@ == before.db@ && exists|e: KeyError| e is Db && #[trigger] failure_reply(
                    rep,
                    "Ошибка очистки: "@,
                    e,
                ) && rep.next is Stay
            }
        },
        MenuAction::CtxList => unchanged(before, after) && match r {
            Ok(rep) => rep == chunk_list_reply(user_chunk_seqs(before.db@, tg_id)),
            Err(e) => e is Sqlite,
        },
        MenuAction::CtxShow(seq) => unchanged(before, after) && match r {
            Ok(rep) => rep == chunk_reply(seq, chunk_body(before, tg_id, seq)),
            Err(e) => e is Sqlite,
        },
        MenuAction::CtxDel(seq) => {
            &&& after.key_map() == before.key_map()
            &&& after.db@.users == before.db@.users
            &&& after.db@.messages == before.db@.messages
            &&& match r {
                Ok(rep) => after.db@.chunks == before.db@.chunks.remove((tg_id, seq)) && rep == chunk_deleted_reply(
                    seq,
                    has_chunk(before.db@, tg_id, seq),
                    user_chunk_seqs(after.db@, tg_id),
                ),
                Err(e) => e is Sqlite && (after.db@.chunks == before.db@.chunks || after.db@.chunks
                    == before.db@.chunks.remove((tg_id, seq))),
            }
        },
        MenuAction::CtxClear => {
            &&& after.key_map() == before.key_map()
            &&& after.db@.users == before.db@.users
            &&& after.db@.messages == before.db@.messages
            &&& chunks_without(after.db@.chunks, tg_id) == chunks_without(before.db@.chunks, tg_id)
            &&& after.db@.chunks.submap_of(before.db@.chunks)
            &&& match r {
                Ok(rep) => after.db@.chunks == chunks_without(before.db@.chunks, tg_id) && rep == chunks_cleared_reply(
                    user_chunk_seqs(before.db@, tg_id).len(),
                ),
                Err(e) => e is Sqlite,
            }
        },
        MenuAction::UuidN(n) => unchanged(before, after) && (r matches Ok(rep) && uuid_reply(rep, n)),
        _ => unchanged(before, after) && r == Ok::<ReplyView, DbError>(menu_reply(action, has, from_id, username)),
    }
}

/// The text of a user's chunk, when the key is in memory and the chunk
/// decrypts to UTF-8.
pub fn chunk_text(state: &AppState, tg_id: i64, seq: i64) -> (r: Result<Option<String>, DbError>)
    ensures
        r matches Ok(body) ==> match body {
            Some(b) => chunk_body(*state, tg_id, seq) == Some(b@),
            None => chunk_body(*state, tg_id, seq) is None,
        },
        r matches Err(e) ==> e is Sqlite,
{
    let rows = match state.db.chunks(tg_id) {
        Ok(rows) => rows,
        Err(e) => return Err(e),
    };
    let key = match state.key(tg_id) {
        Some(k) => k,
        None => return Ok(None),
    };
    let mut i: usize = 0;
    while i < rows.len()
        invariant
            i <= rows@.len(),
            crate::db::lists_chunks(state.db@, tg_id, rows@),
            state.key_map().contains_key(tg_id),
            key@ == state.key_map()[tg_id],
            forall|j: int| 0 <= j < i ==> (#[trigger] rows@[j]).seq != seq,
        decreases rows@.len() - i,
    {
        if rows[i].seq == seq {
            proof {
                assert(crate::db::row_seqs(rows@)[i as int] == seq);
                assert(has_chunk(state.db@, tg_id, seq));
                assert(rows@[i as int].blob@ == state.db@.chunks[(tg_id, seq)]);
            }
            let body = decrypt_text(key, rows[i].blob.as_slice());
            assert(chunk_body(*state, tg_id, seq) == blob_text(key@, rows@[i as int].blob@));
            return Ok(body);
        }
        i = i + 1;
    }
    proof {
        if has_chunk(state.db@, tg_id, seq) {
            assert(crate::db::row_seqs(rows@).contains(seq));
            let k = choose|k: int| 0 <= k < rows@.len() && crate::db::row_seqs(rows@)[k] == seq;
            assert(rows@[k].seq == seq);
        }
    }
    Ok(None)
}

/// Delete all of a user's chunks; returns how many there were.
pub fn clear_chunks(state: &mut AppState, tg_id: i64) -> (r: Result<usize, DbError>)
    ensures
        final(state).key_map() == old(state).key_map(),
        final(state).db@.users == old(state).db@.users,
        final(state).db@.messages == old(state).db@.messages,
        chunks_without(final(state).db@.chunks, tg_id) == chunks_without(old(state).db@.chunks, tg_id),
        final(state).db@.chunks.submap_of(old(state).db@.chunks),
        r matches Ok(n) ==> final(state).db@.chunks == chunks_without(old(state).db@.chunks, tg_id)
            && n == user_chunk_seqs(old(state).db@, tg_id).len(),
        r matches Err(e) ==> e is Sqlite,
{
    let ghost before = state.db@.chunks;
    let seqs = match state.db.chunk_seqs(tg_id) {
        Ok(s) => s,
        Err(e) => return Err(e),
    };
    proof {
        lemma_chunk_seqs_unique(state.db@, tg_id, seqs@);
    }
    let mut n: usize = 0;
    let mut i: usize = 0;
    while i < seqs.len()
        invariant
            i <= seqs@.len(),
            n == i,
            lists_chunk_seqs(old(state).db@, tg_id, seqs@),
            before == old(state).db@.chunks,
            state.key_map() == old(state).key_map(),
            state.db@.users == old(state).db@.users,
            state.db@.messages == old(state).db@.messages,
            state.db@.chunks == Map::new(
                |k: (i64, i64)| before.contains_key(k) && !(k.0 == tg_id && seqs@.take(i as int).contains(k.1)),
                |k: (i64, i64)| before[k],
            ),
        decreases seqs@.len() - i,
    {
        let s = seqs[i];
        proof {
            assert(has_chunk(old(state).db@, tg_id, s));
            assert(!seqs@.take(i as int).contains(s)) by {
                if seqs@.take(i as int).contains(s) {
                    let k = choose|k: int| 0 <= k < i && seqs@.take(i as int)[k] == s;
                    assert(seqs@[k] < seqs@[i as int]);
                }
            }
        }
        let ghost prev = state.db@.chunks;
        match state.db.delete_chunk(tg_id, s) {
            Ok(removed) => {
                assert(removed);
                n = n + 1;
            },
            Err(e) => {
                proof {
                    assert(chunks_without(state.db@.chunks, tg_id) =~= chunks_without(before, tg_id));
                    assert(state.db@.chunks.submap_of(before));
                }
                return Err(e);
            },
        }
        let ghost done = seqs@.take(i as int);
        assert(seqs@.take(i + 1) =~= done.push(s));
        proof {
            assert forall|x: i64| done.push(s).contains(x) <==> (done.contains(x) || x == s) by {
                if done.push(s).contains(x) {
                    let k = choose|k: int| 0 <= k < done.push(s).len() && done.push(s)[k] == x;
                    if k < done.len() {
                        assert(done[k] == x);
                    }
                }
                if done.contains(x) {
                    let k = choose|k: int| 0 <= k < done.len() && done[k] == x;
                    assert(done.push(s)[k] == x);
                }
                if x == s {
                    assert(done.push(s)[done.len() as int] == x);
                }
            }
        }
        i = i + 1;
        assert(state.db@.chunks =~= Map::new(
            |k: (i64, i64)| before.contains_key(k) && !(k.0 == tg_id && seqs@.take(i as int).contains(k.1)),
            |k: (i64, i64)| before[k],
        )) by {
            assert(state.db@.chunks == prev.remove((tg_id, s)));
        }
    }
    assert(seqs@.take(seqs@.len() as int) =~= seqs@);
    assert(state.db@.chunks =~= chunks_without(before, tg_id)) by {
        assert forall|k: (i64, i64)| before.contains_key(k) && k.0 == tg_id implies seqs@.contains(k.1) by {
            assert(has_chunk(old(state).db@, tg_id, k.1));
        }
    }
    assert(chunks_without(state.db@.chunks, tg_id) =~= chunks_without(before, tg_id));
    Ok(n)
}

/// The reply to a press of the button with this `callback_data`, doing the
/// storage work it asks for.
pub fn callback_reply(state: &mut AppState, tg_id: i64, from_id: u64, username: Option<&str>, data: &str) -> (r: Result<
    Reply,
    DbError,
>)
    ensures
        match parsed_action(data@) {
            None => unchanged(*old(state), *final(state)) && reply_result(r) == Ok::<ReplyView, DbError>(
                said("Unknown action: "@ + data@, None, false, NextView::Stay),
            ),
            Some(action) => callback_done(
                *old(state),
                *final(state),
                tg_id,
                from_id,
                match username {
                    Some(u) => Some(u@),
                    None => None,
                },
                action,
                reply_result(r),
            ),
        },
{
    let action = match MenuAction::parse(data) {
        Some(a) => a,
        None => {
            let mut s = text("Unknown action: ");
            push_str(&mut s, data);
            return Ok(say(s, None, Next::Stay));
        },
    };
    let has = state.has_key(tg_id);
    match action {
        MenuAction::KeyClear => {
            let result = delete_user(state, tg_id);
            match result {
                Ok(removed) => {
                    let t = if removed {
                        text(
                            "Ключ и все зашифрованные данные (контекст, история) полностью удалены. Теперь «Установить ключ» создаст всё с чистого листа.",
                        )
                    } else {
                        text("Нечего удалять — ключ не был задан.")
                    };
                    Ok(say(t, Some(Keyboard::Main), Next::Stay))
                },
                Err(e) => {
                    let mut s = text("Ошибка очистки: ");
                    let m = e.message();
                    push_str(&mut s, m.as_str());
                    let rep = say(s, Some(Keyboard::Main), Next::Stay);
                    assert(rep@.text.skip("Ошибка очистки: "@.len() as int) =~= m@);
                    assert(failure_reply(rep@, "Ошибка очистки: "@, e));
                    Ok(rep)
                },
            }
        },
        MenuAction::CtxList => {
            let seqs = match state.db.chunk_seqs(tg_id) {
                Ok(s) => s,
                Err(e) => return Err(e),
            };
            proof {
                lemma_chunk_seqs_unique(state.db@, tg_id, seqs@);
            }
            if seqs.len() == 0 {
                Ok(say(text("Чанков контекста пока нет."), Some(Keyboard::Ctx), Next::Stay))
            } else {
                Ok(show(text("Выберите чанк для просмотра:"), Keyboard::ChunkList(seqs)))
            }
        },
        MenuAction::CtxShow(seq) => {
            let body = match chunk_text(state, tg_id, seq) {
                Ok(b) => b,
                Err(e) => return Err(e),
            };
            match body {
                Some(b) => {
                    let mut s = text("Чанк #");
                    push_signed_decimal(&mut s, seq);
                    push_str(&mut s, ":\n\n");
                    push_str(&mut s, b.as_str());
                    Ok(say(s, Some(Keyboard::ChunkViewer(seq)), Next::Stay))
                },
                None => {
                    let mut s = text("Чанк ");
                    push_signed_decimal(&mut s, seq);
                    push_str(&mut s, " не найден.");
                    Ok(say(s, Some(Keyboard::Ctx), Next::Stay))
                },
            }
        },
        MenuAction::CtxDel(seq) => {
            let removed = match state.db.delete_chunk(tg_id, seq) {
                Ok(b) => b,
                Err(e) => return Err(e),
            };
            let mut s = text("Чанк ");
            push_signed_decimal(&mut s, seq);
            if removed {
                push_str(&mut s, " удалён.");
            } else {
                push_str(&mut s, " не найден.");
            }
            let seqs = match state.db.chunk_seqs(tg_id) {
                Ok(v) => v,
                Err(e) => return Err(e),
            };
            proof {
                lemma_chunk_seqs_unique(state.db@, tg_id, seqs@);
            }
            if seqs.len() == 0 {
                push_str(&mut s, " Это была последняя часть.");
                Ok(say(s, Some(Keyboard::Ctx), Next::Stay))
            } else {
                push_str(&mut s, " Остальные части промта:");
                Ok(say(s, Some(Keyboard::ChunkList(seqs)), Next::Stay))
            }
        },
        MenuAction::CtxClear => {
            let n = match clear_chunks(state, tg_id) {
                Ok(n) => n,
                Err(e) => return Err(e),
            };
            let mut s = text("Удалено чанков: ");
            push_decimal(&mut s, n as u64);
            push_str(&mut s, ".");
            Ok(say(s, Some(Keyboard::Ctx), Next::Stay))
        },
        MenuAction::UuidN(n) => {
            let s = render(n);
            Ok(Reply { text: s, keyboard: Some(Keyboard::Main), edit: false, markdown: true, next: Next::Stay })
        },
        _ => Ok(menu_action_reply(&action, has, from_id, username)),
    }
}

// ---------------------------------------------------------------------------
// Messages
// ---------------------------------------------------------------------------

/// What a chat sent.
#[derive(Debug, Clone)]
pub enum Incoming {
    Text(String),
    /// A photo: the file id of its largest size.
    Photo(String),
    /// Anything else (a sticker, a document, ...).
    Other,
}

/// What a message asks the bot to do.
#[derive(Debug, Clone)]
pub enum Work {
    /// Just reply.
    Reply(Reply),
    /// Set (or restore) the key from this passphrase.
    SetKey(String),
    /// Change the key from the old passphrase to the new one.
    ChangeKey { old: String, new: String },
    /// Store this text as a new context chunk.
    AddContext(String),
    /// Ping this target.
    Ping(String),
    /// Ask GPT this question.
    AskGpt(String),
    /// Forward this text to the owner.
    ForwardText(String),
    /// Forward the photo with this file id to the owner.
    ForwardPhoto(String),
}

/// What a chat sent, seen as a mathematical value.
pub enum IncomingView {
    Text(Seq<char>),
    Photo(Seq<char>),
    Other,
}

/// What a message asks for, seen as a mathematical value.
pub enum WorkView {
    Reply(ReplyView),
    SetKey(Seq<char>),
    ChangeKey(Seq<char>, Seq<char>),
    AddContext(Seq<char>),
    Ping(Seq<char>),
    AskGpt(Seq<char>),
    ForwardText(Seq<char>),
    ForwardPhoto(Seq<char>),
}

impl View for Incoming {
    type V = IncomingView;

    open spec fn view(&self) -> IncomingView {
        match self {
            Incoming::Text(t) => IncomingView::Text(t@),
            Incoming::Photo(id) => IncomingView::Photo(id@),
            Incoming::Other => IncomingView::Other,
        }
    }
}

impl View for Work {
    type V = WorkView;

    open spec fn view(&self) -> WorkView {
        match self {
            Work::Reply(r) => WorkView::Reply(r@),
            Work::SetKey(p) => WorkView::SetKey(p@),
            Work::ChangeKey { old, new } => WorkView::ChangeKey(old@, new@),
            Work::AddContext(t) => WorkView::AddContext(t@),
            Work::Ping(t) => WorkView::Ping(t@),
            Work::AskGpt(q) => WorkView::AskGpt(q@),
            Work::ForwardText(t) => WorkView::ForwardText(t@),
            Work::ForwardPhoto(id) => WorkView::ForwardPhoto(id@),
        }
    }
}

/// The reply to a plain message outside any flow.
pub open spec fn start_raw_reply() -> ReplyView {
    said(
        "Чтобы выбрать действие — откройте меню кнопкой ниже или командой /start."@,
        Some(KeyboardView::Main),
        false,
        NextView::Stay,
    )
}

/// A request for text, in Russian.
pub open spec fn need_text_ru() -> ReplyView {
    said("Пожалуйста, отправьте текст."@, None, false, NextView::Stay)
}

/// A request for text, in English.
pub open spec fn need_text_en() -> ReplyView {
    said("Please send text."@, None, false, NextView::Stay)
}

/// What a message asks for in a dialogue state.
pub open spec fn message_work(state: StateView, msg: IncomingView) -> WorkView {
    match state {
        StateView::Start => WorkView::Reply(start_raw_reply()),
        StateView::AwaitingPassphraseSet => match msg {
            IncomingView::Text(t) => WorkView::SetKey(t),
            _ => WorkView::Reply(need_text_ru()),
        },
        StateView::AwaitingOldPassphrase => match msg {
            IncomingView::Text(t) => WorkView::Reply(
                said("Send the NEW passphrase."@, None, false, NextView::Enter(StateView::AwaitingNewPassphrase(t))),
            ),
            _ => WorkView::Reply(need_text_en()),
        },
        StateView::AwaitingNewPassphrase(old) => match msg {
            IncomingView::Text(t) => WorkView::ChangeKey(old, t),
            _ => WorkView::Reply(need_text_en()),
        },
        StateView::AwaitingContextText(_) => match msg {
            IncomingView::Text(t) => WorkView::AddContext(t),
            _ => WorkView::Reply(need_text_en()),
        },
        StateView::AwaitingPingTarget => match msg {
            IncomingView::Text(t) => WorkView::Ping(t),
            _ => WorkView::Reply(need_text_en()),
        },
        StateView::AwaitingGptQuestion => match msg {
            IncomingView::Text(t) => WorkView::AskGpt(t),
            _ => WorkView::Reply(need_text_en()),
        },
        StateView::AwaitingOwnerMessage => match msg {
            IncomingView::Text(t) => WorkView::ForwardText(t),
            _ => WorkView::Reply(need_text_ru()),
        },
        StateView::AwaitingOwnerPhoto => match msg {
            IncomingView::Photo(id) => WorkView::ForwardPhoto(id),
            _ => WorkView::Reply(said("Пожалуйста, отправьте фото."@, None, false, NextView::Stay)),
        },
    }
}

/// Asks for text, in Russian or in English.
fn need_text(russian: bool) -> (r: Reply)
    ensures
        r@ == if russian { need_text_ru() } else { need_text_en() },
{
    if russian {
        say(text("Пожалуйста, отправьте текст."), None, Next::Stay)
    } else {
        say(text("Please send text."), None, Next::Stay)
    }
}

/// What a message asks for in a dialogue state.
pub fn on_message(state: &State, msg: &Incoming) -> (w: Work)
    ensures
        w@ == message_work(state@, msg@),
{
    match state {
        State::Start => Work::Reply(
            say(
                text("Чтобы выбрать действие — откройте меню кнопкой ниже или командой /start."),
                Some(Keyboard::Main),
                Next::Stay,
            ),
        ),
        State::AwaitingPassphraseSet => match msg {
            Incoming::Text(t) => Work::SetKey(t.clone()),
            _ => Work::Reply(need_text(true)),
        },
        State::AwaitingOldPassphrase => match msg {
            Incoming::Text(t) => Work::Reply(
                say(
                    text("Send the NEW passphrase."),
                    None,
                    Next::Enter(State::AwaitingNewPassphrase { old: t.clone() }),
                ),
            ),
            _ => Work::Reply(need_text(false)),
        },
        State::AwaitingNewPassphrase { old } => match msg {
            Incoming::Text(t) => Work::ChangeKey { old: old.clone(), new: t.clone() },
            _ => Work::Reply(need_text(false)),
        },
        State::AwaitingContextText { .. } => match msg {
            Incoming::Text(t) => Work::AddContext(t.clone()),
            _ => Work::Reply(need_text(false)),
        },
        State::AwaitingPingTarget => match msg {
            Incoming::Text(t) => Work::Ping(t.clone()),
            _ => Work::Reply(need_text(false)),
        },
        State::AwaitingGptQuestion => match msg {
            Incoming::Text(t) => Work::AskGpt(t.clone()),
            _ => Work::Reply(need_text(false)),
        },
        State::AwaitingOwnerMessage => match msg {
            Incoming::Text(t) => Work::ForwardText(t.clone()),
            _ => Work::Reply(need_text(true)),
        },
        State::AwaitingOwnerPhoto => match msg {
            Incoming::Photo(id) => Work::ForwardPhoto(id.clone()),
            _ => Work::Reply(say(text("Пожалуйста, отправьте фото."), None, Next::Stay)),
        },
    }
}

/// Whether a text starts with a prefix.
pub open spec fn prefixed_by(s: Seq<char>, prefix: Seq<char>) -> bool {
    prefix.is_prefix_of(s)
}

/// The rest of a text after a prefix.
pub open spec fn after_prefix(s: Seq<char>, prefix: Seq<char>) -> Seq<char> {
    s.skip(prefix.len() as int)
}

/// Whether the reply to the key setup matches its outcome.
pub open spec fn key_set_reply(r: Result<(), KeyError>, rep: ReplyView) -> bool {
    match r {
        Ok(()) => rep == said(
            "Ключ установлен. Теперь доступны «Контекст» и «Спросить GPT»."@,
            Some(KeyboardView::Main),
            false,
            NextView::Exit,
        ),
        Err(KeyError::WrongPassphrase) => rep == said(
            "Неверная passphrase. Запись уже существует — попробуйте ту же passphrase, что использовали ранее."@,
            None,
            false,
            NextView::Stay,
        ),
        Err(e) => {
            &&& prefixed_by(rep.text, "Не удалось установить ключ: "@)
            &&& crate::key_ops::is_key_error_text(e, after_prefix(rep.text, "Не удалось установить ключ: "@))
            &&& rep.keyboard == Some(KeyboardView::Main) && !rep.edit && !rep.markdown && rep.next is Exit
        },
    }
}

/// Appends an error message to a prefix.
fn prefixed(prefix: &str, message: String) -> (s: String)
    ensures
        prefixed_by(s@, prefix@),
        after_prefix(s@, prefix@) == message@,
{
    let mut s = text(prefix);
    push_str(&mut s, message.as_str());
    assert(s@.take(prefix@.len() as int) =~= prefix@);
    assert(s@.skip(prefix@.len() as int) =~= message@);
    s
}

/// The reply once the key setup has run.
pub fn key_set_result_reply(r: &Result<(), KeyError>) -> (rep: Reply)
    ensures
        key_set_reply(*r, rep@),
{
    match r {
        Ok(()) => say(text("Ключ установлен. Теперь доступны «Контекст» и «Спросить GPT»."), Some(Keyboard::Main), Next::Exit),
        Err(KeyError::WrongPassphrase) => say(
            text("Неверная passphrase. Запись уже существует — попробуйте ту же passphrase, что использовали ранее."),
            None,
            Next::Stay,
        ),
        Err(e) => say(prefixed("Не удалось установить ключ: ", e.message()), Some(Keyboard::Main), Next::Exit),
    }
}

/// Whether the reply to a key change matches its outcome.
pub open spec fn key_change_reply(r: Result<(), KeyError>, rep: ReplyView) -> bool {
    match r {
        Ok(()) => rep == said("Key changed; all data re-encrypted under the new key."@, None, false, NextView::Exit),
        Err(KeyError::WrongPassphrase) => rep == said("Wrong old passphrase; key unchanged."@, None, false, NextView::Exit),
        Err(e) => {
            &&& prefixed_by(rep.text, "Could not change key: "@)
            &&& crate::key_ops::is_key_error_text(e, after_prefix(rep.text, "Could not change key: "@))
            &&& rep.keyboard is None && !rep.edit && !rep.markdown && rep.next is Exit
        },
    }
}

/// The reply once the key change has run.
pub fn key_change_result_reply(r: &Result<(), KeyError>) -> (rep: Reply)
    ensures
        key_change_reply(*r, rep@),
{
    match r {
        Ok(()) => say(text("Key changed; all data re-encrypted under the new key."), None, Next::Exit),
        Err(KeyError::WrongPassphrase) => say(text("Wrong old passphrase; key unchanged."), None, Next::Exit),
        Err(e) => say(prefixed("Could not change key: ", e.message()), None, Next::Exit),
    }
}

/// Whether the reply to a new context chunk matches the outcome.
pub open spec fn context_added_reply(r: Result<i64, StoreError>, rep: ReplyView) -> bool {
    match r {
        Ok(seq) => rep == said(
            "Context chunk "@ + signed_decimal(seq as int) + " added."@,
            Some(KeyboardView::Main),
            false,
            NextView::Exit,
        ),
        Err(e) => {
            &&& prefixed_by(rep.text, "Error: "@)
            &&& is_store_error_text(e, after_prefix(rep.text, "Error: "@))
            &&& rep.keyboard == Some(KeyboardView::Main) && !rep.edit && !rep.markdown && rep.next is Exit
        },
    }
}

/// The reply once a context chunk has been stored (or not).
pub fn context_added_result_reply(r: &Result<i64, StoreError>) -> (rep: Reply)
    ensures
        context_added_reply(*r, rep@),
{
    match r {
        Ok(seq) => {
            let mut s = text("Context chunk ");
            push_signed_decimal(&mut s, *seq);
            push_str(&mut s, " added.");
            say(s, Some(Keyboard::Main), Next::Exit)
        },
        Err(e) => say(prefixed("Error: ", e.message()), Some(Keyboard::Main), Next::Exit),
    }
}

/// Whether `after` is `before` with the text stored, encrypted under the
/// user's key, as the user's next context chunk `seq`.
pub open spec fn chunk_added(before: AppState, after: AppState, tg_id: i64, seq: i64, text: Seq<char>) -> bool {
    &&& before.key_map().contains_key(tg_id)
    &&& !has_chunk(before.db@, tg_id, seq)
    &&& forall|s: i64| #[trigger] has_chunk(before.db@, tg_id, s) ==> s < seq
    &&& if exists|s: i64| has_chunk(before.db@, tg_id, s) {
        has_chunk(before.db@, tg_id, (seq - 1) as i64)
    } else {
        seq == 1
    }
    &&& after.db@.chunks.contains_key((tg_id, seq))
    &&& after.db@.chunks == before.db@.chunks.insert((tg_id, seq), after.db@.chunks[(tg_id, seq)])
    &&& decrypt_outcome(before.key_map()[tg_id], after.db@.chunks[(tg_id, seq)]) == Ok::<Seq<u8>, CryptoError>(
        encode_utf8(text),
    )
}

/// Store a text as the user's next context chunk, encrypted under the key in
/// memory; returns the chunk's number.
pub fn add_context_chunk(state: &mut AppState, tg_id: i64, text: &str) -> (r: Result<i64, StoreError>)
    requires
        forall|s: i64| #[trigger] has_chunk(old(state).db@, tg_id, s) ==> s < i64::MAX,
    ensures
        final(state).key_map() == old(state).key_map(),
        final(state).db@.users == old(state).db@.users,
        final(state).db@.messages == old(state).db@.messages,
        r matches Ok(seq) ==> chunk_added(*old(state), *final(state), tg_id, seq, text@),
        r is Err ==> final(state).db@.chunks == old(state).db@.chunks,
        r matches Err(StoreError::NoKey) <==> !old(state).key_map().contains_key(tg_id),
        r matches Err(StoreError::Crypto(e)) ==> e is Decrypt && !seal_accepts(encode_utf8(text@).len() as int),
        r matches Err(StoreError::Db(e)) ==> e is Sqlite,
        old(state).key_map().contains_key(tg_id) && old(state).db@.users.contains_key(tg_id) && seal_accepts(
            encode_utf8(text@).len() as int,
        ) ==> !(r matches Err(StoreError::Crypto(_))),
{
    let key = match state.key(tg_id) {
        Some(k) => k.clone(),
        None => return Err(StoreError::NoKey),
    };
    let blob = match encrypt(&key, text.as_bytes()) {
        Ok(b) => b,
        Err(e) => return Err(StoreError::Crypto(e)),
    };
    let seq = match state.db.next_seq(tg_id) {
        Ok(s) => s,
        Err(e) => return Err(StoreError::Db(e)),
    };
    match state.db.insert_chunk(tg_id, seq, blob.as_slice()) {
        Ok(()) => {},
        Err(e) => return Err(StoreError::Db(e)),
    }
    Ok(seq)
}

/// What is stored as a context chunk is what the chunk viewer shows.
pub proof fn law_added_chunk_reads_back(before: AppState, after: AppState, tg_id: i64, seq: i64, text: Seq<char>)
    requires
        chunk_added(before, after, tg_id, seq, text),
        after.key_map() == before.key_map(),
    ensures
        chunk_body(after, tg_id, seq) == Some(text),
{
    vstd::utf8::encode_utf8_valid_utf8(text);
    vstd::utf8::encode_utf8_decode_utf8(text);
}

/// A stored chunk becomes the last part of the user's context: the readable
/// chunk texts after the addition are those before it, then the new text.
pub proof fn law_added_chunk_ends_context(
    before: AppState,
    after: AppState,
    tg_id: i64,
    seq: i64,
    text: Seq<char>,
    seqs: Seq<i64>,
)
    requires
        chunk_added(before, after, tg_id, seq, text),
        after.key_map() == before.key_map(),
        lists_chunk_seqs(before.db@, tg_id, seqs),
    ensures
        readable_texts(after.key_map()[tg_id], user_chunk_blobs(after.db@, tg_id)) == readable_texts(
            before.key_map()[tg_id],
            user_chunk_blobs(before.db@, tg_id),
        ).push(text),
{
    let key = before.key_map()[tg_id];
    let blob = after.db@.chunks[(tg_id, seq)];
    let grown = seqs.push(seq);
    assert forall|i: int| 0 <= i < grown.len() implies #[trigger] has_chunk(after.db@, tg_id, grown[i]) by {
        if i < seqs.len() {
            assert(has_chunk(before.db@, tg_id, seqs[i]));
        }
    }
    assert forall|i: int, j: int| 0 <= i < j < grown.len() implies grown[i] < grown[j] by {
        if j == seqs.len() {
            assert(has_chunk(before.db@, tg_id, seqs[i]));
        }
    }
    assert forall|s: i64| #[trigger] has_chunk(after.db@, tg_id, s) implies grown.contains(s) by {
        if s == seq {
            assert(grown[seqs.len() as int] == s);
        } else {
            assert(has_chunk(before.db@, tg_id, s));
            let k = choose|k: int| 0 <= k < seqs.len() && seqs[k] == s;
            assert(grown[k] == s);
        }
    }
    lemma_chunk_seqs_unique(before.db@, tg_id, seqs);
    lemma_chunk_seqs_unique(after.db@, tg_id, grown);
    let old_blobs = user_chunk_blobs(before.db@, tg_id);
    let new_blobs = user_chunk_blobs(after.db@, tg_id);
    assert(new_blobs =~= old_blobs.push(blob)) by {
        assert forall|i: int| 0 <= i < seqs.len() implies #[trigger] new_blobs[i] == old_blobs[i] by {
            assert(has_chunk(before.db@, tg_id, seqs[i]));
            assert(seqs[i] != seq);
        }
    }
    vstd::utf8::encode_utf8_valid_utf8(text);
    vstd::utf8::encode_utf8_decode_utf8(text);
    assert(blob_text(key, blob) == Some(text));
    assert(old_blobs.push(blob).drop_last() =~= old_blobs);
}

/// The text of a user's info: chat id, first name (`n/a` when there is
/// none) and the message date as given.
pub open spec fn user_info(chat_id: i64, first_name: Option<Seq<char>>, date: Seq<char>) -> Seq<char> {
    "UserId: "@ + signed_decimal(chat_id as int) + "\nUserName: "@ + match first_name {
        Some(n) => n,
        None => "n/a"@,
    } + "\ndate: "@ + date
}

/// Format a user's info.
pub fn user_info_text(chat_id: i64, first_name: Option<&str>, date: &str) -> (s: String)
    ensures
        s@ == user_info(chat_id, match first_name {
            Some(n) => Some(n@),
            None => None,
        }, date@),
{
    let mut s = text("UserId: ");
    push_signed_decimal(&mut s, chat_id);
    push_str(&mut s, "\nUserName: ");
    match first_name {
        Some(n) => push_str(&mut s, n),
        None => push_str(&mut s, "n/a"),
    }
    push_str(&mut s, "\ndate: ");
    push_str(&mut s, date);
    s
}

/// The text forwarded to the owner.
pub open spec fn owner_note(text: Seq<char>) -> Seq<char> {
    "✉️ "@ + text
}

/// The text forwarded to the owner for a user's message.
pub fn owner_note_text(text: &str) -> (s: String)
    ensures
        s@ == owner_note(text@),
{
    let mut s = self::text("✉️ ");
    push_str(&mut s, text);
    s
}

/// The reply once a message went to the owner.
pub fn owner_message_sent() -> (r: Reply)
    ensures
        r@ == said("Message sent to the owner. Thanks unknown internet dweller."@, Some(KeyboardView::Main), false, NextView::Exit),
{
    say(text("Message sent to the owner. Thanks unknown internet dweller."), Some(Keyboard::Main), Next::Exit)
}

/// The reply once a photo went to the owner.
pub fn owner_photo_sent() -> (r: Reply)
    ensures
        r@ == said("Фото отправлено в астрал."@, Some(KeyboardView::Main), false, NextView::Exit),
{
    say(text("Фото отправлено в астрал."), Some(Keyboard::Main), Next::Exit)
}

/// The prompt after a ping or a GPT answer.
pub fn whats_next() -> (r: Reply)
    ensures
        r@ == said("Что дальше?"@, Some(KeyboardView::Main), false, NextView::Stay),
{
    say(text("Что дальше?"), Some(Keyboard::Main), Next::Stay)
}

/// The reply to `/start`.
pub fn start_command_reply() -> (r: Reply)
    ensures
        r@ == said("Привет! Выбери действие:"@, Some(KeyboardView::Main), false, NextView::Stay),
{
    say(text("Привет! Выбери действие:"), Some(Keyboard::Main), Next::Stay)
}

/// Whether the reply to `/reset` matches the outcome of clearing the history.
pub open spec fn reset_reply(r: Result<(), DbError>, rep: ReplyView) -> bool {
    match r {
        Ok(()) => rep == said("История диалога очищена."@, Some(KeyboardView::Main), false, NextView::Stay),
        Err(e) => {
            &&& prefixed_by(rep.text, "Ошибка: "@)
            &&& is_db_error_text(e, after_prefix(rep.text, "Ошибка: "@))
            &&& rep.keyboard == Some(KeyboardView::Main) && !rep.edit && !rep.markdown && rep.next is Stay
        },
    }
}

/// The reply once `/reset` has cleared the history (or failed to).
pub fn reset_result_reply(r: &Result<(), DbError>) -> (rep: Reply)
    ensures
        reset_reply(*r, rep@),
{
    match r {
        Ok(()) => say(text("История диалога очищена."), Some(Keyboard::Main), Next::Stay),
        Err(e) => say(prefixed("Ошибка: ", e.message()), Some(Keyboard::Main), Next::Stay),
    }
}

/// Each menu button opens its own menu. The main, key and UUID buttons show
/// their keyboards in place; with the key in memory the context button shows
/// the context keyboard in place, and without it the key menu; help and the
/// profile offer the way back to the main menu.
pub proof fn law_menus_open_their_keyboards(has_key: bool, from_id: u64, username: Option<Seq<char>>)
    ensures
        menu_reply(MenuAction::Main, has_key, from_id, username).keyboard == Some(KeyboardView::Main),
        menu_reply(MenuAction::Key, has_key, from_id, username).keyboard == Some(KeyboardView::Key),
        menu_reply(MenuAction::Uuid, has_key, from_id, username).keyboard == Some(KeyboardView::Uuid),
        menu_reply(MenuAction::Ctx, true, from_id, username).keyboard == Some(KeyboardView::Ctx),
        menu_reply(MenuAction::Ctx, true, from_id, username).text == "📦 Контекст для GPT"@,
        menu_reply(MenuAction::Ctx, true, from_id, username).edit,
        menu_reply(MenuAction::Ctx, false, from_id, username).keyboard == Some(KeyboardView::Key),
        menu_reply(MenuAction::Help, has_key, from_id, username).keyboard == Some(KeyboardView::BackToMain),
        menu_reply(MenuAction::Profile, has_key, from_id, username).keyboard == Some(KeyboardView::BackToMain),
{
}

} // verus!
