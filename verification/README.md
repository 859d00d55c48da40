# k1f_bot

A Telegram bot ("a Swiss knife of utils"): per-user encrypted storage of GPT
context and history, an inline-button menu, UUID generation, ping, and
ChatGPT answers rendered as Telegram HTML.

## Layout

- `src/` — the library, verified with Verus:
  - `crypto` — Argon2id key derivation, ChaCha20-Poly1305 blobs
    (`nonce || ciphertext`); decrypting what was encrypted gives it back.
  - `db` — the SQLite tables (users, context chunks, messages) modelled as
    maps and sequences; every statement has a contract over that model.
  - `state` — the database and the keys held in memory.
  - `key_ops` — key setup/restore, verification, full wipe and rotation
    (re-encryption written in one SQLite transaction: all or nothing).
  - `chat` — the GPT conversation: context and history decrypted from the
    store, the message list, and what is stored of an exchange.
  - `markdown` — Markdown events to the HTML subset Telegram accepts;
    `safe_html` proves that every `<` of the output opens an accepted tag.
  - `menu` — `callback_data` encoding and the inline keyboards.
  - `dialogue` — what the bot answers to a button or a message, and the next
    dialogue state.
  - `ping`, `uuid`, `text` — host normalisation, UUID rendering, text helpers.
- `tests/` — tests of the library.
- `app/` — the program: Telegram dispatch (teloxide), the OpenAI call
  (reqwest), ping (pinger), configuration from the environment.

## Running

```bash
export TELOXIDE_TOKEN=...   # bot token
export MASTER_TG_ID=...     # owner's telegram id
export GPT_TOKEN=...        # OpenAI key (GPT_MODEL optional)
export K1F_DB_PATH=k1f.sqlite
```

## Dependencies

`takecell` is not used by the code: it is listed only to hold it at 0.1.1,
the release that `teloxide-core` builds with on the Rust toolchain this
crate is built with; later releases ask for a newer compiler.
