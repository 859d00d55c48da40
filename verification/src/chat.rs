//! The GPT conversation kept for each user: the context chunks and the past
//! exchanges are stored encrypted, and decrypted to build the message list
//! sent to the model.
use vstd::prelude::*;
use vstd::utf8::{decode_utf8, encode_utf8, encode_utf8_decode_utf8, encode_utf8_valid_utf8, valid_utf8};

use crate::crypto::{crypto_error_text, decrypt, decrypt_outcome, encrypt, seal_accepts, CryptoError, SecretKey};
use crate::db::{
    is_db_error_text, last_n, lemma_listed_blobs, lemma_push_message, messages_of, row_blobs, user_chunk_blobs,
    DbError,
};
use crate::state::AppState;
use crate::text::push_str;

verus! {

/// How many past messages are sent to the model as memory.
pub const HISTORY_LIMIT: u32 = 128;

/// `String::from_utf8`: the text when the bytes are valid UTF-8.
#[verifier::external_body]
fn utf8_text(bytes: Vec<u8>) -> (r: Option<String>)
    ensures
        r is Some <==> valid_utf8(bytes@),
        r matches Some(s) ==> s@ == decode_utf8(bytes@),
{
    String::from_utf8(bytes).ok()
}

/// The text a blob holds under a key: present when it decrypts to UTF-8.
pub open spec fn blob_text(key: Seq<u8>, blob: Seq<u8>) -> Option<Seq<char>> {
    match decrypt_outcome(key, blob) {
        Ok(p) => if valid_utf8(p) { Some(decode_utf8(p)) } else { None },
        Err(_) => None,
    }
}

/// Decrypt a blob and read it as UTF-8 text.
pub fn decrypt_text(key: &SecretKey, blob: &[u8]) -> (r: Option<String>)
    ensures
        r is Some <==> blob_text(key@, blob@) is Some,
        r matches Some(s) ==> blob_text(key@, blob@) == Some(s@),
{
    match decrypt(key, blob) {
        Ok(p) => utf8_text(p),
        Err(_) => None,
    }
}

/// The texts of the blobs that are readable under the key, in order.
pub open spec fn readable_texts(key: Seq<u8>, blobs: Seq<Seq<u8>>) -> Seq<Seq<char>>
    decreases blobs.len(),
{
    if blobs.len() == 0 {
        Seq::empty()
    } else {
        let rest = readable_texts(key, blobs.drop_last());
        match blob_text(key, blobs.last()) {
            Some(t) => rest.push(t),
            None => rest,
        }
    }
}

/// The parts joined with a separator between each two (`[String]::join`).
pub open spec fn joined(parts: Seq<Seq<char>>, sep: Seq<char>) -> Seq<char>
    decreases parts.len(),
{
    if parts.len() == 0 {
        Seq::empty()
    } else if parts.len() == 1 {
        parts[0]
    } else {
        joined(parts.drop_last(), sep) + sep + parts.last()
    }
}

/// The user's context: the readable chunks in order, separated by blank
/// lines; empty when the user's key is not in memory.
pub open spec fn context_of(state: AppState, tg_id: i64) -> Seq<char> {
    if state.key_map().contains_key(tg_id) {
        joined(readable_texts(state.key_map()[tg_id], user_chunk_blobs(state.db@, tg_id)), "\n\n"@)
    } else {
        Seq::empty()
    }
}

/// The readable messages as `(role, text)`, in order.
pub open spec fn readable_messages(key: Seq<u8>, msgs: Seq<(Seq<char>, Seq<u8>)>) -> Seq<(Seq<char>, Seq<char>)>
    decreases msgs.len(),
{
    if msgs.len() == 0 {
        Seq::empty()
    } else {
        let rest = readable_messages(key, msgs.drop_last());
        match blob_text(key, msgs.last().1) {
            Some(t) => rest.push((msgs.last().0, t)),
            None => rest,
        }
    }
}

/// The user's recent history: the readable ones among the last
/// `HISTORY_LIMIT` messages, oldest first; empty when the user's key is not
/// in memory.
pub open spec fn history_of(state: AppState, tg_id: i64) -> Seq<(Seq<char>, Seq<char>)> {
    if state.key_map().contains_key(tg_id) {
        readable_messages(
            state.key_map()[tg_id],
            last_n(messages_of(state.db@.messages, tg_id), HISTORY_LIMIT as int),
        )
    } else {
        Seq::empty()
    }
}

/// Text pairs seen as pairs of character sequences.
pub open spec fn pair_views(pairs: Seq<(String, String)>) -> Seq<(Seq<char>, Seq<char>)> {
    pairs.map_values(|p: (String, String)| (p.0@, p.1@))
}

/// String parts seen as character sequences.
pub open spec fn text_views(parts: Seq<String>) -> Seq<Seq<char>> {
    parts.map_values(|s: String| s@)
}

/// Join texts with a separator.
pub fn join_texts(parts: &[String], sep: &str) -> (r: String)
    ensures
        r@ == joined(text_views(parts@), sep@),
{
    let mut out = String::new();
    let mut i: usize = 0;
    while i < parts.len()
        invariant
            i <= parts@.len(),
            out@ == joined(text_views(parts@.take(i as int)), sep@),
        decreases parts@.len() - i,
    {
        let ghost before = text_views(parts@.take(i as int));
        if i > 0 {
            push_str(&mut out, sep);
        }
        push_str(&mut out, parts[i].as_str());
        assert(text_views(parts@.take(i + 1)) =~= before.push(parts@[i as int]@));
        assert(text_views(parts@.take(i + 1)).drop_last() =~= before);
        i = i + 1;
        proof {
            if i == 1 {
                assert(before.len() == 0);
                assert(out@ =~= parts@[0]@);
            }
        }
    }
    assert(parts@.take(parts@.len() as int) =~= parts@);
    out
}

/// The user's context for the model: the decrypted chunks, in order of their
/// numbers, joined by blank lines (chunks that do not decrypt are skipped);
/// empty when the user's key is not in memory.
pub fn context_text(state: &AppState, tg_id: i64) -> (r: Result<String, DbError>)
    ensures
        r matches Ok(s) ==> s@ == context_of(*state, tg_id),
        r matches Err(e) ==> e is Sqlite,
{
    let rows = match state.db.chunks(tg_id) {
        Ok(rows) => rows,
        Err(e) => return Err(e),
    };
    proof {
        lemma_listed_blobs(state.db@, tg_id, rows@);
    }
    let key = match state.key(tg_id) {
        Some(k) => k,
        None => return Ok(String::new()),
    };
    let mut parts: Vec<String> = Vec::new();
    let mut i: usize = 0;
    while i < rows.len()
        invariant
            i <= rows@.len(),
            text_views(parts@) == readable_texts(key@, row_blobs(rows@).take(i as int)),
        decreases rows@.len() - i,
    {
        let ghost before = text_views(parts@);
        assert(row_blobs(rows@).take(i + 1).drop_last() =~= row_blobs(rows@).take(i as int));
        assert(row_blobs(rows@).take(i + 1).last() == rows@[i as int].blob@);
        match decrypt_text(key, rows[i].blob.as_slice()) {
            Some(t) => {
                parts.push(t);
                assert(text_views(parts@) =~= before.push(t@));
            },
            None => {},
        }
        i = i + 1;
    }
    assert(row_blobs(rows@).take(rows@.len() as int) =~= row_blobs(rows@));
    Ok(join_texts(parts.as_slice(), "\n\n"))
}

/// The user's recent history for the model, as `(role, text)`: the last
/// `HISTORY_LIMIT` messages, oldest first, those that do not decrypt
/// skipped; empty when the user's key is not in memory.
pub fn recent_history(state: &AppState, tg_id: i64) -> (r: Result<Vec<(String, String)>, DbError>)
    ensures
        r matches Ok(h) ==> pair_views(h@) == history_of(*state, tg_id),
        r matches Err(e) ==> e is Sqlite,
{
    let rows = match state.db.recent_messages(tg_id, HISTORY_LIMIT) {
        Ok(rows) => rows,
        Err(e) => return Err(e),
    };
    let ghost msgs = crate::db::message_views(rows@);
    let key = match state.key(tg_id) {
        Some(k) => k,
        None => {
            let empty: Vec<(String, String)> = Vec::new();
            assert(pair_views(empty@) =~= Seq::<(Seq<char>, Seq<char>)>::empty());
            return Ok(empty);
        },
    };
    let mut out: Vec<(String, String)> = Vec::new();
    let mut i: usize = 0;
    while i < rows.len()
        invariant
            i <= rows@.len(),
            msgs == crate::db::message_views(rows@),
            pair_views(out@) == readable_messages(key@, msgs.take(i as int)),
        decreases rows@.len() - i,
    {
        let ghost before = pair_views(out@);
        assert(msgs.take(i + 1).drop_last() =~= msgs.take(i as int));
        assert(msgs.take(i + 1).last() == (rows@[i as int].role@, rows@[i as int].blob@));
        match decrypt_text(key, rows[i].blob.as_slice()) {
            Some(t) => {
                let role = rows[i].role.clone();
                out.push((role, t));
                assert(pair_views(out@) =~= before.push((rows@[i as int].role@, t@)));
            },
            None => {},
        }
        i = i + 1;
    }
    assert(msgs.take(rows@.len() as int) =~= msgs);
    Ok(out)
}

/// One message of the conversation sent to the model.
pub struct ChatMessage {
    pub role: String,
    pub content: String,
}

/// Chat messages seen as `(role, content)`.
pub open spec fn chat_views(msgs: Seq<ChatMessage>) -> Seq<(Seq<char>, Seq<char>)> {
    msgs.map_values(|m: ChatMessage| (m.role@, m.content@))
}

/// The conversation sent to the model: the user's context as a system
/// message (when there is any), then the history, then the question.
pub open spec fn conversation(
    context: Seq<char>,
    history: Seq<(Seq<char>, Seq<char>)>,
    question: Seq<char>,
) -> Seq<(Seq<char>, Seq<char>)> {
    let head = if context.len() > 0 {
        seq![("system"@, "Additional context from the user:\n\n"@ + context)]
    } else {
        Seq::empty()
    };
    head + history + seq![("user"@, question)]
}

/// Assemble the conversation from its parts.
pub fn chat_messages(context: &str, history: Vec<(String, String)>, question: &str) -> (r: Vec<ChatMessage>)
    ensures
        chat_views(r@) == conversation(context@, pair_views(history@), question@),
{
    let mut msgs: Vec<ChatMessage> = Vec::new();
    if !context.is_empty() {
        let mut content = String::from_str("Additional context from the user:\n\n");
        push_str(&mut content, context);
        msgs.push(ChatMessage { role: String::from_str("system"), content });
    }
    let ghost head = chat_views(msgs@);
    assert(head == if context@.len() > 0 {
        seq![("system"@, "Additional context from the user:\n\n"@ + context@)]
    } else {
        Seq::<(Seq<char>, Seq<char>)>::empty()
    }) by {
        if context@.len() > 0 {
            assert(chat_views(msgs@) =~= seq![("system"@, "Additional context from the user:\n\n"@ + context@)]);
        } else {
            assert(chat_views(msgs@) =~= Seq::<(Seq<char>, Seq<char>)>::empty());
        }
    }
    let mut i: usize = 0;
    while i < history.len()
        invariant
            i <= history@.len(),
            chat_views(msgs@) == head + pair_views(history@).take(i as int),
        decreases history@.len() - i,
    {
        let role = history[i].0.clone();
        let content = history[i].1.clone();
        let ghost before = chat_views(msgs@);
        msgs.push(ChatMessage { role, content });
        assert(chat_views(msgs@) =~= before.push((history@[i as int].0@, history@[i as int].1@)));
        assert(pair_views(history@).take(i + 1) =~= pair_views(history@).take(i as int).push(
            (history@[i as int].0@, history@[i as int].1@),
        ));
        i = i + 1;
    }
    assert(pair_views(history@).take(history@.len() as int) =~= pair_views(history@));
    let ghost before = chat_views(msgs@);
    msgs.push(ChatMessage { role: String::from_str("user"), content: String::from_str(question) });
    assert(chat_views(msgs@) =~= before.push(("user"@, question@)));
    msgs
}

/// The message list for a question: the user's context, recent history and
/// the question.
pub fn build_messages(state: &AppState, tg_id: i64, question: &str) -> (r: Result<Vec<ChatMessage>, DbError>)
    ensures
        r matches Ok(m) ==> chat_views(m@) == conversation(
            context_of(*state, tg_id),
            history_of(*state, tg_id),
            question@,
        ),
        r matches Err(e) ==> e is Sqlite,
{
    let context = match context_text(state, tg_id) {
        Ok(c) => c,
        Err(e) => return Err(e),
    };
    let history = match recent_history(state, tg_id) {
        Ok(h) => h,
        Err(e) => return Err(e),
    };
    Ok(chat_messages(context.as_str(), history, question))
}

/// What asking a question yields before the model is reached: the message
/// list, or the text to answer instead.
pub open spec fn question_ready(state: AppState, tg_id: i64, prompt: Option<Seq<char>>, r: Result<Seq<(Seq<char>, Seq<char>)>, Seq<char>>) -> bool {
    match prompt {
        None => r == Err::<Seq<(Seq<char>, Seq<char>)>, Seq<char>>("No prompt provided"@),
        Some(q) => if !state.key_map().contains_key(tg_id) {
            r == Err::<Seq<(Seq<char>, Seq<char>)>, Seq<char>>("Set up your key first with /key set."@)
        } else {
            match r {
                Ok(m) => m == conversation(context_of(state, tg_id), history_of(state, tg_id), q),
                Err(t) => "Could not load context/history: "@.is_prefix_of(t) && "SQLite error: "@.is_prefix_of(
                    t.skip("Could not load context/history: "@.len() as int),
                ),
            }
        },
    }
}

/// A message list seen through its views, or the text in its place.
pub open spec fn prepared_view(r: Result<Vec<ChatMessage>, String>) -> Result<Seq<(Seq<char>, Seq<char>)>, Seq<char>> {
    match r {
        Ok(m) => Ok(chat_views(m@)),
        Err(t) => Err(t@),
    }
}

/// Prepare a question for the model: it needs a prompt and the user's key
/// in memory; then the context and history are loaded.
pub fn prepare_question(state: &AppState, tg_id: i64, prompt: Option<&str>) -> (r: Result<Vec<ChatMessage>, String>)
    ensures
        question_ready(*state, tg_id, match prompt {
            Some(q) => Some(q@),
            None => None,
        }, prepared_view(r)),
{
    let question = match prompt {
        Some(q) => q,
        None => return Err(String::from_str("No prompt provided")),
    };
    if !state.has_key(tg_id) {
        return Err(String::from_str("Set up your key first with /key set."));
    }
    match build_messages(state, tg_id, question) {
        Ok(m) => Ok(m),
        Err(e) => {
            let prefix = "Could not load context/history: ";
            let mut s = String::from_str(prefix);
            let m = e.message();
            push_str(&mut s, m.as_str());
            assert(s@.take(prefix@.len() as int) =~= prefix@);
            assert(s@.skip(prefix@.len() as int) =~= m@);
            Err(s)
        },
    }
}

/// The answer taken from the model's reply: the first choice's content,
/// when there is a choice.
pub fn first_answer(contents: Vec<String>) -> (r: Option<String>)
    ensures
        contents@.len() > 0 ==> (r matches Some(a) && a@ == contents@[0]@),
        contents@.len() == 0 ==> r is None,
{
    if contents.len() > 0 {
        Some(contents[0].clone())
    } else {
        None
    }
}

/// Why the model refused: `OpenAI <status>: <detail>`, where the detail is
/// the message of OpenAI's error body when it has one, else the body itself
/// without surrounding white space.
pub open spec fn refusal_text(status: Seq<char>, message: Option<Seq<char>>, body: Seq<char>) -> Seq<char> {
    "OpenAI "@ + status + ": "@ + match message {
        Some(m) => m,
        None => crate::ping::trimmed(body),
    }
}

/// The text of a refused request.
pub fn refusal(status: &str, message: Option<String>, body: &str) -> (r: String)
    ensures
        r@ == refusal_text(status@, match message {
            Some(m) => Some(m@),
            None => None,
        }, body@),
{
    let mut s = String::from_str("OpenAI ");
    push_str(&mut s, status);
    push_str(&mut s, ": ");
    match message {
        Some(m) => push_str(&mut s, m.as_str()),
        None => {
            let cs = crate::text::chars_of(body);
            let t = crate::ping::trim_chars(cs.as_slice());
            let ts = crate::text::string_of(t.as_slice());
            push_str(&mut s, ts.as_str());
        },
    }
    s
}

/// Why a text could not be stored.
#[derive(Debug)]
pub enum StoreError {
    /// The user's key is not in memory.
    NoKey,
    Crypto(CryptoError),
    Db(DbError),
}

/// Whether a text is the message of a storage failure.
pub open spec fn is_store_error_text(e: StoreError, s: Seq<char>) -> bool {
    match e {
        StoreError::NoKey => s == "No key loaded"@,
        StoreError::Crypto(c) => s == crypto_error_text(c),
        StoreError::Db(d) => is_db_error_text(d, s),
    }
}

impl StoreError {
    /// The error's message.
    pub fn message(&self) -> (s: String)
        ensures
            is_store_error_text(*self, s@),
    {
        match self {
            StoreError::NoKey => String::from_str("No key loaded"),
            StoreError::Crypto(e) => e.message(),
            StoreError::Db(e) => e.message(),
        }
    }
}

/// Whether `after` is `before` with the exchange appended to the user's
/// history: the question as `user`, then the answer as `assistant`, each
/// encrypted under the user's key; nothing else changed.
pub open spec fn exchange_stored(before: AppState, after: AppState, tg_id: i64, question: Seq<char>, answer: Seq<char>) -> bool {
    let key = before.key_map()[tg_id];
    let n = before.db@.messages.len() as int;
    &&& before.key_map().contains_key(tg_id)
    &&& after.key_map() == before.key_map()
    &&& after.db@.users == before.db@.users
    &&& after.db@.chunks == before.db@.chunks
    &&& after.db@.messages.len() == n + 2
    &&& after.db@.messages.take(n) == before.db@.messages
    &&& after.db@.messages[n].0 == tg_id && after.db@.messages[n].1 == "user"@
    &&& decrypt_outcome(key, after.db@.messages[n].2) == Ok::<Seq<u8>, CryptoError>(encode_utf8(question))
    &&& after.db@.messages[n + 1].0 == tg_id && after.db@.messages[n + 1].1 == "assistant"@
    &&& decrypt_outcome(key, after.db@.messages[n + 1].2) == Ok::<Seq<u8>, CryptoError>(encode_utf8(answer))
}

/// Store the user's question and the model's answer, encrypted, in the
/// user's history.
pub fn persist_exchange(state: &mut AppState, tg_id: i64, question: &str, answer: &str) -> (r: Result<(), StoreError>)
    ensures
        r is Ok ==> exchange_stored(*old(state), *final(state), tg_id, question@, answer@),
        final(state).key_map() == old(state).key_map(),
        final(state).db@.users == old(state).db@.users,
        final(state).db@.chunks == old(state).db@.chunks,
        r matches Err(StoreError::NoKey) <==> !old(state).key_map().contains_key(tg_id),
        r matches Err(StoreError::Crypto(e)) ==> e is Decrypt && !(seal_accepts(encode_utf8(question@).len() as int)
            && seal_accepts(encode_utf8(answer@).len() as int)),
        r is Err && !(r matches Err(StoreError::Db(_))) ==> final(state).db@.messages == old(state).db@.messages,
        r matches Err(StoreError::Db(e)) ==> e is Sqlite && old(state).db@.messages.is_prefix_of(
            final(state).db@.messages,
        ) && final(state).db@.messages.len() <= old(state).db@.messages.len() + 1,
        old(state).key_map().contains_key(tg_id) && old(state).db@.users.contains_key(tg_id) && seal_accepts(
            encode_utf8(question@).len() as int,
        ) && seal_accepts(encode_utf8(answer@).len() as int) ==> !(r matches Err(StoreError::Crypto(_))),
{
    let key = match state.key(tg_id) {
        Some(k) => k.clone(),
        None => return Err(StoreError::NoKey),
    };
    let q = match encrypt(&key, question.as_bytes()) {
        Ok(b) => b,
        Err(e) => return Err(StoreError::Crypto(e)),
    };
    let a = match encrypt(&key, answer.as_bytes()) {
        Ok(b) => b,
        Err(e) => return Err(StoreError::Crypto(e)),
    };
    let ghost n = state.db@.messages.len() as int;
    match state.db.append_message(tg_id, "user", q.as_slice()) {
        Ok(()) => {},
        Err(e) => {
            assert(old(state).db@.messages.is_prefix_of(state.db@.messages));
            return Err(StoreError::Db(e));
        },
    }
    let ghost mid = state.db@.messages;
    match state.db.append_message(tg_id, "assistant", a.as_slice()) {
        Ok(()) => {},
        Err(e) => {
            assert(old(state).db@.messages.is_prefix_of(state.db@.messages)) by {
                assert(state.db@.messages == mid);
                assert(mid.take(n) =~= old(state).db@.messages);
            }
            return Err(StoreError::Db(e));
        },
    }
    assert(state.db@.messages.take(n) =~= old(state).db@.messages);
    Ok(())
}

/// What is shown and what is stored of the model's reply: a real answer is
/// shown and stored; a reply without any answer shows `No response found`
/// and stores nothing; when OpenAI cannot be reached, a notice with the
/// reason is shown and nothing is stored.
pub open spec fn answer_outcome(reply: Result<Option<Seq<char>>, Seq<char>>) -> (Seq<char>, Option<Seq<char>>) {
    match reply {
        Ok(Some(a)) => (a, Some(a)),
        Ok(None) => ("No response found"@, None),
        Err(e) => ("Could not reach OpenAI: "@ + e, None),
    }
}

/// The model's reply seen as a mathematical value.
pub open spec fn reply_view(reply: Result<Option<String>, String>) -> Result<Option<Seq<char>>, Seq<char>> {
    match reply {
        Ok(Some(a)) => Ok(Some(a@)),
        Ok(None) => Ok(None),
        Err(e) => Err(e@),
    }
}

/// Settle the model's reply (its first answer, if any, or why it could not
/// be had) into the text to show and the answer to store.
pub fn settle_answer(reply: Result<Option<String>, String>) -> (r: (String, Option<String>))
    ensures
        r.0@ == answer_outcome(reply_view(reply)).0,
        match answer_outcome(reply_view(reply)).1 {
            Some(a) => r.1 matches Some(k) && k@ == a,
            None => r.1 is None,
        },
{
    match reply {
        Ok(Some(a)) => {
            let kept = a.clone();
            (a, Some(kept))
        },
        Ok(None) => (String::from_str("No response found"), None),
        Err(e) => {
            let mut s = String::from_str("Could not reach OpenAI: ");
            push_str(&mut s, e.as_str());
            (s, None)
        },
    }
}

/// What is stored by `persist_exchange` is what the history gives back: the
/// question and the answer are the last two messages of the user's recent
/// history, with the roles `user` and `assistant`.
pub proof fn law_exchange_read_back(before: AppState, after: AppState, tg_id: i64, question: Seq<char>, answer: Seq<char>)
    requires
        exchange_stored(before, after, tg_id, question, answer),
    ensures
        ({
            let h = history_of(after, tg_id);
            &&& h.len() >= 2
            &&& h[h.len() - 2] == ("user"@, question)
            &&& h[h.len() - 1] == ("assistant"@, answer)
        }),
{
    let key = before.key_map()[tg_id];
    let n = before.db@.messages.len() as int;
    let m = after.db@.messages;
    let qm = m[n];
    let am = m[n + 1];
    assert(m.take(n + 1) =~= before.db@.messages.push(qm));
    assert(m =~= m.take(n + 1).push(am));
    lemma_push_message(before.db@.messages, qm, tg_id);
    lemma_push_message(m.take(n + 1), am, tg_id);
    let mine = messages_of(m, tg_id);
    assert(mine == messages_of(before.db@.messages, tg_id).push((qm.1, qm.2)).push((am.1, am.2)));
    encode_utf8_valid_utf8(question);
    encode_utf8_valid_utf8(answer);
    encode_utf8_decode_utf8(question);
    encode_utf8_decode_utf8(answer);
    assert(blob_text(key, qm.2) == Some(question));
    assert(blob_text(key, am.2) == Some(answer));
    let recent = last_n(mine, HISTORY_LIMIT as int);
    assert(recent.len() >= 2 && recent[recent.len() - 1] == (am.1, am.2) && recent[recent.len() - 2] == (qm.1, qm.2));
    assert(recent.drop_last().last() == (qm.1, qm.2));
    assert(recent.drop_last().len() >= 1);
    let h = readable_messages(key, recent);
    assert(h == readable_messages(key, recent.drop_last()).push((am.1, answer)));
    assert(readable_messages(key, recent.drop_last()) == readable_messages(key, recent.drop_last().drop_last()).push(
        (qm.1, question),
    ));
}

} // verus!
