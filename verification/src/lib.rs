//! A Telegram bot's toolbox: per-user encrypted storage of GPT context and
//! history, the dialogue and its inline menus, UUID rendering, host
//! normalisation for ping, and Markdown-to-Telegram-HTML conversion.
pub mod crypto;
pub mod db;
pub mod state;
pub mod key_ops;
pub mod text;
pub mod menu;
pub mod uuid;
pub mod ping;
pub mod markdown;
pub mod safe_html;
pub mod chat;
pub mod dialogue;
