# rsground

The core of RsGround, a collaborative Rust playground, written in Verus:
every rule of the server that decides something is a verified function with
a contract, and the server program around it only performs I/O.

## Layout

- `src/` — the verified library.
  - `access`, `errors`, `messages`: access levels, the errors reported to a
    client and their texts, and the WebSocket messages.
  - `ot`, `opseq`, `document`: operation sequences (through the
    `operational-transform` crate), the editor-facing operation type, and
    the collaboratively edited document (history, text, cursors).
  - `project`, `session`, `manager`, `users`: a project's files, access and
    settings; what one client's request does to a project and what is sent
    back; the bounded sets of projects and user names.
  - `runner`, `paths`: the stages of compiling and running a project and the
    paths a sandbox may touch.
  - `lsp`, `protocol`, `auth`, `config`: language-server framing and
    validation, the WebSocket protocol header, tokens and logins, and the
    startup configuration.
  - `strmap`, `text`, `util`: a string-keyed map, text helpers and a trait
    for default values.
- `tests/` — tests of the library.
- `app/` — the server: HTTP routes, WebSocket connections, the sandbox and
  the language-server process, and the JSON forms of the messages.

## Checking

The library is checked with Verus; the tests run with the outside crates
linked.
