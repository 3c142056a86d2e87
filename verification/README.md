# omniscientia

An organisation's AI agent: a terminal chat with a local Ollama model that can
call tools, a Telegram bot that onboards new users and files pairing requests,
and command-line subcommands to run the bot server and approve or deny those
requests.

## Layout

- `src/` — the library, verified with Verus. Every public function states its
  result over a mathematical model (`Seq<char>` for text, views of the records):
  - `text`, `edit`: string operations and UTF-8 byte offsets;
  - `markdown`: the markdown renderer for model replies;
  - `executor`: finding tool calls in replies and the access rules for tools;
  - `provider`, `json`: chat requests and reading replies (through `serde_json`);
  - `prompt`, `context`: the system prompt and the rolling context window;
  - `bot`: the onboarding conversation of the Telegram bot;
  - `cli`: pairing summaries, filters, PID files and the systemd unit;
  - `tui`, `panes`, `tui_laws`: the interface state machine, what each screen
    shows, and properties that hold across keys;
  - `config`, `records`: settings and stored records.
- `app/` — the program: terminal drawing (ratatui/crossterm), HTTP (reqwest),
  SQLite (rusqlite), the bot's polling loop and the subcommands. It hands plain
  values to the library and performs what the library decides.
- `tests/` — tests of the library on concrete values.
