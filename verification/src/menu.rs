//! Inline-keyboard menus and `callback_data` routing.
//!
//! Telegram attaches a `callback_data` string to each inline button press; the
//! intended action is encoded there and parsed back in the callback handler.
//! The format is deliberately short (Telegram limits `callback_data` to 64
//! bytes):
//!
//! | callback_data   | meaning                                  |
//! |-----------------|------------------------------------------|
//! | `main`          | open the main menu                       |
//! | `key`           | key submenu                              |
//! | `key:set`       | start key setup (prompts for passphrase) |
//! | `key:change`    | start key change                         |
//! | `key:clear`     | wipe the key and all encrypted data      |
//! | `ctx`           | context submenu                          |
//! | `ctx:add`       | prompt for a new chunk                   |
//! | `ctx:list`      | list chunk numbers as clickable buttons  |
//! | `ctx:clr`       | delete all chunks                        |
//! | `ctx:show:<n>`  | show chunk number n                      |
//! | `ctx:del:<n>`   | delete chunk number n                    |
//! | `gpt`           | prompt for a GPT question                |
//! | `ping`          | prompt for a ping target                 |
//! | `msg`           | prompt for a message to the owner        |
//! | `photo`         | prompt for a photo to the owner          |
//! | `uuid`          | uuid submenu                             |
//! | `uuid:<n>`      | generate <n> uuids                       |
//! | `profile`       | show user profile                        |
//! | `help`          | show help text                           |
use vstd::prelude::*;
use vstd::utf8::{encode_utf8, is_ascii_chars, is_ascii_chars_encode_utf8};

use crate::text::{
    chars_of, decimal, i64_from_text, lemma_decimal, lemma_decimal_len, parse_i64, parse_u8, pow10, push_decimal,
    push_signed_decimal, signed_decimal, u8_from_text,
};

verus! {

/// All menu actions, parsed from a `callback_data` string.
#[derive(Debug, Clone, PartialEq, Eq, Structural)]
pub enum MenuAction {
    Main,
    Key,
    KeySet,
    KeyChange,
    KeyClear,
    Ctx,
    CtxAdd,
    CtxList,
    CtxClear,
    /// Show the decrypted text of chunk number n.
    CtxShow(i64),
    /// Delete chunk number n.
    CtxDel(i64),
    Gpt,
    Ping,
    /// Send a text message to the bot owner.
    Msg,
    /// Send a photo to the bot owner.
    Photo,
    Uuid,
    UuidN(u8),
    Profile,
    Help,
}

/// The `callback_data` of an action.
pub open spec fn action_text(a: MenuAction) -> Seq<char> {
    match a {
        MenuAction::Main => "main"@,
        MenuAction::Key => "key"@,
        MenuAction::KeySet => "key:set"@,
        MenuAction::KeyChange => "key:change"@,
        MenuAction::KeyClear => "key:clear"@,
        MenuAction::Ctx => "ctx"@,
        MenuAction::CtxAdd => "ctx:add"@,
        MenuAction::CtxList => "ctx:list"@,
        MenuAction::CtxClear => "ctx:clr"@,
        MenuAction::CtxShow(n) => "ctx:show:"@ + signed_decimal(n as int),
        MenuAction::CtxDel(n) => "ctx:del:"@ + signed_decimal(n as int),
        MenuAction::Gpt => "gpt"@,
        MenuAction::Ping => "ping"@,
        MenuAction::Msg => "msg"@,
        MenuAction::Photo => "photo"@,
        MenuAction::Uuid => "uuid"@,
        MenuAction::UuidN(n) => "uuid:"@ + decimal(n as nat),
        MenuAction::Profile => "profile"@,
        MenuAction::Help => "help"@,
    }
}

/// The action whose `callback_data` is exactly this fixed word, if any.
pub open spec fn keyword_action(s: Seq<char>) -> Option<MenuAction> {
    if s == "main"@ {
        Some(MenuAction::Main)
    } else if s == "key"@ {
        Some(MenuAction::Key)
    } else if s == "key:set"@ {
        Some(MenuAction::KeySet)
    } else if s == "key:change"@ {
        Some(MenuAction::KeyChange)
    } else if s == "key:clear"@ {
        Some(MenuAction::KeyClear)
    } else if s == "ctx"@ {
        Some(MenuAction::Ctx)
    } else if s == "ctx:add"@ {
        Some(MenuAction::CtxAdd)
    } else if s == "ctx:list"@ {
        Some(MenuAction::CtxList)
    } else if s == "ctx:clr"@ {
        Some(MenuAction::CtxClear)
    } else if s == "gpt"@ {
        Some(MenuAction::Gpt)
    } else if s == "ping"@ {
        Some(MenuAction::Ping)
    } else if s == "msg"@ {
        Some(MenuAction::Msg)
    } else if s == "photo"@ {
        Some(MenuAction::Photo)
    } else if s == "uuid"@ {
        Some(MenuAction::Uuid)
    } else if s == "profile"@ {
        Some(MenuAction::Profile)
    } else if s == "help"@ {
        Some(MenuAction::Help)
    } else {
        None
    }
}

/// Whether `s` starts with `p`.
pub open spec fn has_prefix(s: Seq<char>, p: Seq<char>) -> bool {
    p.len() <= s.len() && s.take(p.len() as int) == p
}

/// The action that a `callback_data` string denotes: a fixed word, or
/// `uuid:`, `ctx:show:` or `ctx:del:` followed by a number in the range of
/// the action's field (in the notation that `str::parse` accepts).
pub open spec fn parsed_action(s: Seq<char>) -> Option<MenuAction> {
    if keyword_action(s) is Some {
        keyword_action(s)
    } else if has_prefix(s, "uuid:"@) {
        match u8_from_text(s.skip("uuid:"@.len() as int)) {
            Some(n) => Some(MenuAction::UuidN(n)),
            None => None,
        }
    } else if has_prefix(s, "ctx:show:"@) {
        match i64_from_text(s.skip("ctx:show:"@.len() as int)) {
            Some(n) => Some(MenuAction::CtxShow(n)),
            None => None,
        }
    } else if has_prefix(s, "ctx:del:"@) {
        match i64_from_text(s.skip("ctx:del:"@.len() as int)) {
            Some(n) => Some(MenuAction::CtxDel(n)),
            None => None,
        }
    } else {
        None
    }
}

/// Whether the characters spell the literal.
fn chars_equal(cs: &[char], lit: &str) -> (r: bool)
    ensures
        r == (cs@ == lit@),
{
    let l = chars_of(lit);
    if cs.len() != l.len() {
        return false;
    }
    let mut i: usize = 0;
    while i < cs.len()
        invariant
            cs@.len() == l@.len(),
            l@ == lit@,
            i <= cs@.len(),
            cs@.take(i as int) =~= l@.take(i as int),
        decreases cs@.len() - i,
    {
        if cs[i] != l[i] {
            return false;
        }
        i = i + 1;
        assert(cs@.take(i as int) =~= l@.take(i as int)) by {
            assert(cs@.take(i as int) =~= cs@.take(i - 1).push(cs@[i - 1]));
            assert(l@.take(i as int) =~= l@.take(i - 1).push(l@[i - 1]));
        }
    }
    assert(cs@ =~= cs@.take(cs@.len() as int));
    assert(l@ =~= l@.take(l@.len() as int));
    true
}

/// Whether the characters start with the literal.
fn chars_start_with(cs: &[char], lit: &str) -> (r: bool)
    ensures
        r == has_prefix(cs@, lit@),
{
    let l = chars_of(lit);
    if cs.len() < l.len() {
        return false;
    }
    let (head, _) = cs.split_at(l.len());
    assert(head@ == cs@.take(lit@.len() as int));
    chars_equal(head, lit)
}

impl MenuAction {
    /// Parse a `callback_data` payload. Returns `None` on unknown data.
    pub fn parse(data: &str) -> (r: Option<Self>)
        ensures
            r == parsed_action(data@),
    {
        let cs = chars_of(data);
        let c = cs.as_slice();
        if chars_equal(c, "main") {
            Some(MenuAction::Main)
        } else if chars_equal(c, "key") {
            Some(MenuAction::Key)
        } else if chars_equal(c, "key:set") {
            Some(MenuAction::KeySet)
        } else if chars_equal(c, "key:change") {
            Some(MenuAction::KeyChange)
        } else if chars_equal(c, "key:clear") {
            Some(MenuAction::KeyClear)
        } else if chars_equal(c, "ctx") {
            Some(MenuAction::Ctx)
        } else if chars_equal(c, "ctx:add") {
            Some(MenuAction::CtxAdd)
        } else if chars_equal(c, "ctx:list") {
            Some(MenuAction::CtxList)
        } else if chars_equal(c, "ctx:clr") {
            Some(MenuAction::CtxClear)
        } else if chars_equal(c, "gpt") {
            Some(MenuAction::Gpt)
        } else if chars_equal(c, "ping") {
            Some(MenuAction::Ping)
        } else if chars_equal(c, "msg") {
            Some(MenuAction::Msg)
        } else if chars_equal(c, "photo") {
            Some(MenuAction::Photo)
        } else if chars_equal(c, "uuid") {
            Some(MenuAction::Uuid)
        } else if chars_equal(c, "profile") {
            Some(MenuAction::Profile)
        } else if chars_equal(c, "help") {
            Some(MenuAction::Help)
        } else if chars_start_with(c, "uuid:") {
            let (_, rest) = c.split_at(chars_of("uuid:").len());
            match parse_u8(rest) {
                Some(n) => Some(MenuAction::UuidN(n)),
                None => None,
            }
        } else if chars_start_with(c, "ctx:show:") {
            let (_, rest) = c.split_at(chars_of("ctx:show:").len());
            match parse_i64(rest) {
                Some(n) => Some(MenuAction::CtxShow(n)),
                None => None,
            }
        } else if chars_start_with(c, "ctx:del:") {
            let (_, rest) = c.split_at(chars_of("ctx:del:").len());
            match parse_i64(rest) {
                Some(n) => Some(MenuAction::CtxDel(n)),
                None => None,
            }
        } else {
            None
        }
    }

    /// Serialize back to a `callback_data` string.
    pub fn to_data(&self) -> (s: String)
        ensures
            s@ == action_text(*self),
    {
        match self {
            MenuAction::Main => String::from_str("main"),
            MenuAction::Key => String::from_str("key"),
            MenuAction::KeySet => String::from_str("key:set"),
            MenuAction::KeyChange => String::from_str("key:change"),
            MenuAction::KeyClear => String::from_str("key:clear"),
            MenuAction::Ctx => String::from_str("ctx"),
            MenuAction::CtxAdd => String::from_str("ctx:add"),
            MenuAction::CtxList => String::from_str("ctx:list"),
            MenuAction::CtxClear => String::from_str("ctx:clr"),
            MenuAction::CtxShow(n) => {
                let mut s = String::from_str("ctx:show:");
                push_signed_decimal(&mut s, *n);
                s
            },
            MenuAction::CtxDel(n) => {
                let mut s = String::from_str("ctx:del:");
                push_signed_decimal(&mut s, *n);
                s
            },
            MenuAction::Gpt => String::from_str("gpt"),
            MenuAction::Ping => String::from_str("ping"),
            MenuAction::Msg => String::from_str("msg"),
            MenuAction::Photo => String::from_str("photo"),
            MenuAction::Uuid => String::from_str("uuid"),
            MenuAction::UuidN(n) => {
                let mut s = String::from_str("uuid:");
                push_decimal(&mut s, *n as u64);
                s
            },
            MenuAction::Profile => String::from_str("profile"),
            MenuAction::Help => String::from_str("help"),
        }
    }
}

/// A number written after a prefix reads back as that number.
proof fn lemma_u8_text(n: u8)
    ensures
        u8_from_text(decimal(n as nat)) == Some(n),
        decimal(n as nat).len() <= 3,
{
    lemma_decimal(n as nat);
    assert(crate::text::is_digit(decimal(n as nat)[0]));
    reveal_with_fuel(pow10, 4);
    lemma_decimal_len(n as nat, 3, pow10(3));
}

/// A signed number reads back as that number.
proof fn lemma_i64_text(n: i64)
    ensures
        i64_from_text(signed_decimal(n as int)) == Some(n),
        signed_decimal(n as int).len() <= 20,
        signed_decimal(n as int).len() > 0,
{
    let m: nat = if n < 0 { (-n) as nat } else { n as nat };
    lemma_decimal(m);
    assert(crate::text::is_digit(decimal(m)[0]));
    reveal_with_fuel(pow10, 20);
    assert(m < pow10(19));
    lemma_decimal_len(m, 19, pow10(19));
    if n < 0 {
        assert((seq!['-'] + decimal(m)).skip(1) =~= decimal(m));
    }
}

/// A number's text is ASCII.
proof fn lemma_signed_decimal_ascii(n: int)
    ensures
        is_ascii_chars(signed_decimal(n)),
{
    let m: nat = if n < 0 { (-n) as nat } else { n as nat };
    lemma_decimal(m);
    let d = decimal(m);
    assert forall|i: int| 0 <= i < d.len() implies '\0' <= #[trigger] d[i] <= '\u{7f}' by {
        assert(crate::text::is_digit(d[i]));
    }
    let s = signed_decimal(n);
    if n < 0 {
        assert forall|i: int| 0 <= i < s.len() implies '\0' <= #[trigger] s[i] <= '\u{7f}' by {
            if i > 0 {
                assert(s[i] == d[i - 1]);
            }
        }
    }
}

/// A text made of an ASCII prefix and an ASCII rest is ASCII.
proof fn lemma_ascii_concat(a: Seq<char>, b: Seq<char>)
    requires
        is_ascii_chars(a),
        is_ascii_chars(b),
    ensures
        is_ascii_chars(a + b),
{
    assert forall|i: int| 0 <= i < (a + b).len() implies '\0' <= #[trigger] (a + b)[i] <= '\u{7f}' by {
        if i < a.len() {
            assert((a + b)[i] == a[i]);
        } else {
            assert((a + b)[i] == b[i - a.len()]);
        }
    }
}

/// Every action's `callback_data` is ASCII.
proof fn lemma_action_text_ascii(a: MenuAction)
    ensures
        is_ascii_chars(action_text(a)),
{
    reveal_strlit("main");
    reveal_strlit("key");
    reveal_strlit("key:set");
    reveal_strlit("key:change");
    reveal_strlit("key:clear");
    reveal_strlit("ctx");
    reveal_strlit("ctx:add");
    reveal_strlit("ctx:list");
    reveal_strlit("ctx:clr");
    reveal_strlit("ctx:show:");
    reveal_strlit("ctx:del:");
    reveal_strlit("gpt");
    reveal_strlit("ping");
    reveal_strlit("msg");
    reveal_strlit("photo");
    reveal_strlit("uuid");
    reveal_strlit("uuid:");
    reveal_strlit("profile");
    reveal_strlit("help");
    let s = action_text(a);
    match a {
        MenuAction::CtxShow(n) => {
            lemma_signed_decimal_ascii(n as int);
            lemma_ascii_concat("ctx:show:"@, signed_decimal(n as int));
        },
        MenuAction::CtxDel(n) => {
            lemma_signed_decimal_ascii(n as int);
            lemma_ascii_concat("ctx:del:"@, signed_decimal(n as int));
        },
        MenuAction::UuidN(n) => {
            lemma_signed_decimal_ascii(n as int);
            assert(signed_decimal(n as int) == decimal(n as nat));
            lemma_ascii_concat("uuid:"@, decimal(n as nat));
        },
        _ => {
            assert forall|i: int| 0 <= i < s.len() implies '\0' <= #[trigger] s[i] <= '\u{7f}' by {}
        },
    }
}

/// Every action's `callback_data` parses back to the same action and fits
/// Telegram's limit of 64 bytes.
pub proof fn law_callback_data_round_trip(a: MenuAction)
    ensures
        parsed_action(action_text(a)) == Some(a),
        encode_utf8(action_text(a)).len() <= 64,
{
    lemma_action_text_ascii(a);
    is_ascii_chars_encode_utf8(action_text(a));
    lemma_callback_data_parses_back(a);
}

/// Every action's `callback_data` parses back to the same action and is at
/// most 64 characters long.
proof fn lemma_callback_data_parses_back(a: MenuAction)
    ensures
        parsed_action(action_text(a)) == Some(a),
        action_text(a).len() <= 64,
{
    reveal_strlit("main");
    reveal_strlit("key");
    reveal_strlit("key:set");
    reveal_strlit("key:change");
    reveal_strlit("key:clear");
    reveal_strlit("ctx");
    reveal_strlit("ctx:add");
    reveal_strlit("ctx:list");
    reveal_strlit("ctx:clr");
    reveal_strlit("ctx:show:");
    reveal_strlit("ctx:del:");
    reveal_strlit("gpt");
    reveal_strlit("ping");
    reveal_strlit("msg");
    reveal_strlit("photo");
    reveal_strlit("uuid");
    reveal_strlit("uuid:");
    reveal_strlit("profile");
    reveal_strlit("help");
    match a {
        MenuAction::UuidN(n) => {
            lemma_u8_text(n);
            let s = action_text(a);
            assert(s.take(5) =~= "uuid:"@);
            assert(s.skip(5) =~= decimal(n as nat));
            assert(s[0] == 'u' && s[4] == ':' && s.len() >= 6);
        },
        MenuAction::CtxShow(n) => {
            lemma_i64_text(n);
            let s = action_text(a);
            assert(s.take(9) =~= "ctx:show:"@);
            assert(s.skip(9) =~= signed_decimal(n as int));
            assert(s[0] == 'c' && s[3] == ':' && s[4] == 's' && s.len() >= 10);
        },
        MenuAction::CtxDel(n) => {
            lemma_i64_text(n);
            let s = action_text(a);
            assert(s.take(8) =~= "ctx:del:"@);
            assert(s.skip(8) =~= signed_decimal(n as int));
            assert(s[0] == 'c' && s[3] == ':' && s[4] == 'd' && s.len() >= 9);
        },
        MenuAction::Ctx => {
            assert("ctx"@[0] != "key"@[0]);
        },
        MenuAction::CtxAdd => {
            assert("ctx:add"@[0] != "key:set"@[0]);
        },
        MenuAction::CtxClear => {
            assert("ctx:clr"@[0] != "key:set"@[0]);
            assert("ctx:clr"@[4] != "ctx:add"@[4]);
        },
        MenuAction::Gpt => {
            assert("gpt"@[0] != "key"@[0]);
            assert("gpt"@[0] != "ctx"@[0]);
        },
        MenuAction::Ping => {
            assert("ping"@[0] != "main"@[0]);
        },
        MenuAction::Msg => {
            assert("msg"@[0] != "key"@[0]);
            assert("msg"@[0] != "ctx"@[0]);
            assert("msg"@[0] != "gpt"@[0]);
        },
        MenuAction::Uuid => {
            assert("uuid"@[0] != "main"@[0]);
            assert("uuid"@[0] != "ping"@[0]);
        },
        MenuAction::Profile => {
            assert("profile"@[0] != "key:set"@[0]);
            assert("profile"@[0] != "ctx:add"@[0]);
            assert("profile"@[0] != "ctx:clr"@[0]);
        },
        MenuAction::Help => {
            assert("help"@[0] != "main"@[0]);
            assert("help"@[0] != "ping"@[0]);
            assert("help"@[0] != "uuid"@[0]);
        },
        _ => {},
    }
}

// ---------------------------------------------------------------------------
// Inline keyboards
// ---------------------------------------------------------------------------

/// A button of an inline keyboard: its label and the action it sends.
#[derive(Debug, Clone)]
pub struct Button {
    pub label: String,
    pub action: MenuAction,
}

/// A button seen as `(label, action)`.
pub open spec fn button_view(b: Button) -> (Seq<char>, MenuAction) {
    (b.label@, b.action)
}

/// A keyboard row seen as `(label, action)` pairs.
pub open spec fn row_view(row: Vec<Button>) -> Seq<(Seq<char>, MenuAction)> {
    row@.map_values(|b: Button| button_view(b))
}

/// A button with the given label and action.
fn btn(label: &str, action: MenuAction) -> (b: Button)
    ensures
        button_view(b) == (label@, action),
{
    Button { label: String::from_str(label), action }
}

/// A row of one button.
fn row1(a: Button) -> (r: Vec<Button>)
    ensures
        row_view(r) == seq![button_view(a)],
{
    let mut r: Vec<Button> = Vec::new();
    r.push(a);
    assert(row_view(r) =~= seq![button_view(a)]);
    r
}

/// A row of two buttons.
fn row2(a: Button, b: Button) -> (r: Vec<Button>)
    ensures
        row_view(r) == seq![button_view(a), button_view(b)],
{
    let mut r: Vec<Button> = Vec::new();
    r.push(a);
    r.push(b);
    assert(row_view(r) =~= seq![button_view(a), button_view(b)]);
    r
}

/// The top-level menu shown on `/start`.
pub fn main_menu() -> (k: Vec<Vec<Button>>)
    ensures
        k@.len() == 5,
        row_view(k@[0]) == seq![("🔑 Ключ шифрования"@, MenuAction::Key), ("📦 Контекст"@, MenuAction::Ctx)],
        row_view(k@[1]) == seq![("💬 Спросить GPT"@, MenuAction::Gpt)],
        row_view(k@[2]) == seq![("🌐 Ping"@, MenuAction::Ping), ("🔮 UUID"@, MenuAction::Uuid)],
        row_view(k@[3]) == seq![("✉️ Написать владельцу"@, MenuAction::Msg), ("📷 Фото владельцу"@, MenuAction::Photo)],
        row_view(k@[4]) == seq![("👤 Профиль"@, MenuAction::Profile), ("❓ Справка"@, MenuAction::Help)],
{
    let mut k: Vec<Vec<Button>> = Vec::new();
    k.push(row2(btn("🔑 Ключ шифрования", MenuAction::Key), btn("📦 Контекст", MenuAction::Ctx)));
    k.push(row1(btn("💬 Спросить GPT", MenuAction::Gpt)));
    k.push(row2(btn("🌐 Ping", MenuAction::Ping), btn("🔮 UUID", MenuAction::Uuid)));
    k.push(row2(btn("✉️ Написать владельцу", MenuAction::Msg), btn("📷 Фото владельцу", MenuAction::Photo)));
    k.push(row2(btn("👤 Профиль", MenuAction::Profile), btn("❓ Справка", MenuAction::Help)));
    k
}

/// The key submenu.
pub fn key_menu() -> (k: Vec<Vec<Button>>)
    ensures
        k@.len() == 4,
        row_view(k@[0]) == seq![("Установить ключ"@, MenuAction::KeySet)],
        row_view(k@[1]) == seq![("Сменить ключ"@, MenuAction::KeyChange)],
        row_view(k@[2]) == seq![("🗑 Удалить ключ и данные"@, MenuAction::KeyClear)],
        row_view(k@[3]) == seq![("← Назад"@, MenuAction::Main)],
{
    let mut k: Vec<Vec<Button>> = Vec::new();
    k.push(row1(btn("Установить ключ", MenuAction::KeySet)));
    k.push(row1(btn("Сменить ключ", MenuAction::KeyChange)));
    k.push(row1(btn("🗑 Удалить ключ и данные", MenuAction::KeyClear)));
    k.push(row1(btn("← Назад", MenuAction::Main)));
    k
}

/// The context submenu.
pub fn ctx_menu() -> (k: Vec<Vec<Button>>)
    ensures
        k@.len() == 4,
        row_view(k@[0]) == seq![("Добавить кусок"@, MenuAction::CtxAdd)],
        row_view(k@[1]) == seq![("Просмотр кусков"@, MenuAction::CtxList)],
        row_view(k@[2]) == seq![("Удалить все"@, MenuAction::CtxClear)],
        row_view(k@[3]) == seq![("← Назад"@, MenuAction::Main)],
{
    let mut k: Vec<Vec<Button>> = Vec::new();
    k.push(row1(btn("Добавить кусок", MenuAction::CtxAdd)));
    k.push(row1(btn("Просмотр кусков", MenuAction::CtxList)));
    k.push(row1(btn("Удалить все", MenuAction::CtxClear)));
    k.push(row1(btn("← Назад", MenuAction::Main)));
    k
}

/// The button that opens chunk number `n`: labelled `#n`.
pub open spec fn chunk_button(n: i64) -> (Seq<char>, MenuAction) {
    (seq!['#'] + signed_decimal(n as int), MenuAction::CtxShow(n))
}

/// The number of rows of four (the last one possibly shorter) that `n`
/// chunk buttons take.
pub open spec fn chunk_row_count(n: int) -> int {
    (n + 3) / 4
}

/// Keyboard listing existing chunk numbers as buttons, four per row, each
/// opening a viewer for that chunk, then a row back to the context menu.
pub fn chunks_list_menu(seqs: &[i64]) -> (k: Vec<Vec<Button>>)
    ensures
        k@.len() == chunk_row_count(seqs@.len() as int) + 1,
        forall|r: int| 0 <= r < chunk_row_count(seqs@.len() as int) ==> #[trigger] row_view(k@[r]) == seqs@.subrange(
            4 * r,
            if 4 * r + 4 <= seqs@.len() { 4 * r + 4 } else { seqs@.len() as int },
        ).map_values(|n: i64| chunk_button(n)),
        row_view(k@[k@.len() - 1]) == seq![("← К контексту"@, MenuAction::Ctx)],
{
    let mut rows: Vec<Vec<Button>> = Vec::new();
    let mut i: usize = 0;
    while i < seqs.len()
        invariant
            i <= seqs@.len(),
            i % 4 == 0 || i == seqs@.len(),
            rows@.len() == chunk_row_count(i as int),
            forall|r: int| 0 <= r < rows@.len() ==> #[trigger] row_view(rows@[r]) == seqs@.subrange(
                4 * r,
                if 4 * r + 4 <= seqs@.len() { 4 * r + 4 } else { seqs@.len() as int },
            ).map_values(|n: i64| chunk_button(n)),
        decreases seqs@.len() - i,
    {
        let end: usize = if seqs.len() - i > 4 { i + 4 } else { seqs.len() };
        let mut row: Vec<Button> = Vec::new();
        let mut j: usize = i;
        while j < end
            invariant
                i <= j <= end <= seqs@.len(),
                row_view(row) == seqs@.subrange(i as int, j as int).map_values(|n: i64| chunk_button(n)),
            decreases end - j,
        {
            let n = seqs[j];
            let mut label = String::from_str("#");
            proof {
                reveal_strlit("#");
                assert("#"@ =~= seq!['#']);
            }
            push_signed_decimal(&mut label, n);
            assert(label@ == seq!['#'] + signed_decimal(n as int));
            let ghost before = row_view(row);
            row.push(Button { label, action: MenuAction::CtxShow(n) });
            assert(row_view(row) =~= before.push(chunk_button(n)));
            j = j + 1;
            assert(seqs@.subrange(i as int, j as int) =~= seqs@.subrange(i as int, j - 1).push(n));
            assert(row_view(row) =~= seqs@.subrange(i as int, j as int).map_values(|n: i64| chunk_button(n)));
        }
        let ghost old_rows = rows@;
        rows.push(row);
        assert(4 * (old_rows.len() as int) == i);
        assert forall|r: int| 0 <= r < rows@.len() implies #[trigger] row_view(rows@[r]) == seqs@.subrange(
            4 * r,
            if 4 * r + 4 <= seqs@.len() { 4 * r + 4 } else { seqs@.len() as int },
        ).map_values(|n: i64| chunk_button(n)) by {
            if r < old_rows.len() {
                assert(rows@[r] == old_rows[r]);
            }
        }
        i = end;
    }
    rows.push(row1(btn("← К контексту", MenuAction::Ctx)));
    rows
}

/// Keyboard for a single chunk viewer: delete this chunk or go back to the list.
pub fn chunk_viewer_menu(seq: i64) -> (k: Vec<Vec<Button>>)
    ensures
        k@.len() == 2,
        row_view(k@[0]) == seq![("🗑 Удалить этот кусок"@, MenuAction::CtxDel(seq))],
        row_view(k@[1]) == seq![("← К списку"@, MenuAction::CtxList)],
{
    let mut k: Vec<Vec<Button>> = Vec::new();
    k.push(row1(btn("🗑 Удалить этот кусок", MenuAction::CtxDel(seq))));
    k.push(row1(btn("← К списку", MenuAction::CtxList)));
    k
}

/// The UUID submenu: counts 1, 3, 5 and 10, then a row back.
pub fn uuid_menu() -> (k: Vec<Vec<Button>>)
    ensures
        k@.len() == 2,
        row_view(k@[0]) == seq![
            (decimal(1), MenuAction::UuidN(1)),
            (decimal(3), MenuAction::UuidN(3)),
            (decimal(5), MenuAction::UuidN(5)),
            (decimal(10), MenuAction::UuidN(10)),
        ],
        row_view(k@[1]) == seq![("← Назад"@, MenuAction::Main)],
{
    let counts: [u8; 4] = [1u8, 3, 5, 10];
    let mut row: Vec<Button> = Vec::new();
    let mut i: usize = 0;
    while i < 4
        invariant
            i <= 4,
            counts@ == seq![1u8, 3u8, 5u8, 10u8],
            row_view(row) == counts@.take(i as int).map_values(|n: u8| (decimal(n as nat), MenuAction::UuidN(n))),
        decreases 4 - i,
    {
        let n = counts[i];
        let mut label = String::new();
        push_decimal(&mut label, n as u64);
        let ghost before = row_view(row);
        row.push(Button { label, action: MenuAction::UuidN(n) });
        assert(row_view(row) =~= before.push((decimal(n as nat), MenuAction::UuidN(n))));
        i = i + 1;
        assert(counts@.take(i as int) =~= counts@.take(i - 1).push(n));
        assert(row_view(row) =~= counts@.take(i as int).map_values(|n: u8| (decimal(n as nat), MenuAction::UuidN(n))));
    }
    assert(counts@.take(4) =~= counts@);
    assert(row_view(row) =~= seq![
        (decimal(1), MenuAction::UuidN(1)),
        (decimal(3), MenuAction::UuidN(3)),
        (decimal(5), MenuAction::UuidN(5)),
        (decimal(10), MenuAction::UuidN(10)),
    ]);
    let mut k: Vec<Vec<Button>> = Vec::new();
    k.push(row);
    k.push(row1(btn("← Назад", MenuAction::Main)));
    k
}

/// A single "back to main" keyboard.
pub fn back_to_main() -> (k: Vec<Vec<Button>>)
    ensures
        k@.len() == 1,
        row_view(k@[0]) == seq![("← В главное меню"@, MenuAction::Main)],
{
    let mut k: Vec<Vec<Button>> = Vec::new();
    k.push(row1(btn("← В главное меню", MenuAction::Main)));
    k
}

/// Every button of the chunk list opens the viewer of its own chunk: the
/// button for chunk `n` is labelled `#n`, carries the action that shows
/// chunk `n`, and its `callback_data` is `ctx:show:n`, which reads back as
/// that action.
pub proof fn law_chunk_buttons_open_their_chunk(n: i64)
    ensures
        chunk_button(n).0 == seq!['#'] + signed_decimal(n as int),
        chunk_button(n).1 == MenuAction::CtxShow(n),
        action_text(chunk_button(n).1) == "ctx:show:"@ + signed_decimal(n as int),
        parsed_action("ctx:show:"@ + signed_decimal(n as int)) == Some(MenuAction::CtxShow(n)),
{
    law_callback_data_round_trip(MenuAction::CtxShow(n));
}

} // verus!
