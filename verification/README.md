# telegram_bridge

The verified core of a Telegram bot bridge that talks to the Bot API by
long polling and routes tool approvals through inline keyboard buttons.

* `src/` is the library, checked by Verus:
  * `protocol` — the Bot API types as plain values;
  * `text` — splitting callback data on `:`, string comparison, and the
    std string functions the library relies on;
  * `approver` — callback data parsing, the table of approvals waiting for
    a reply (`Pending`), the prompt and its keyboard, and the steps of one
    approval (`ApprovalFlow`);
  * `config` — the bot configuration and its chat allowlist;
  * `client` — the Bot API endpoint derived from the token;
  * `handler` — user formatting and the calls made on a message handler;
  * `polling` — offsets, routing of updates, authorization, dispatch;
  * `bridge` — start check, bot naming and the registered commands.
* `app/` does the HTTP (reqwest), the config file, the clock-driven and
  async parts (tokio), and holds the serde forms of the types.
* `tests/` runs the library on concrete values.
