# Msg2Note

A macOS menu bar app that binds Telegram bots to local markdown files. A message to
a bot becomes one timestamped line in its file; a file that is sent to it lands in a
folder. Nothing sits between the two but Telegram.

The rules by which that happens are a library, verified with
[Verus](https://github.com/verus-lang/verus). The rest of the app is ordinary Rust
around it.

## Layout

- `src/`: the library.
  - `text`, `number`, `size`, `chunk`, `redact`, `names`, `paths`: the formats.
  - `clock`: the local time and fresh identifiers.
  - `json`, `telegram`, `endpoint`, `download`: what the Bot API is asked, and what
    its answers mean.
  - `status`, `table`, `journal`, `poll`, `worker`, `inbox`: what a bot does with its
    updates, what it remembers of them, and what holds of that.
  - `daily`: the digest that a bot sends back once a day.
  - `notes`: the lines in a markdown file, and how writers take turns at it.
  - `config`, `form`, `commands`, `server`, `tray`: settings, the windows, the local
    Bot API server and the menu bar.
- `tests/`: its tests.
- `app/`: the app: files, the network, the Keychain, and the windows.

## What is proved

Every function of the library states what it returns, and Verus proves it. The
functions whose names begin with `law_` state what holds across several of them:
that no message is noted twice even when Telegram delivers it again, that none is
confirmed before it is safe, that a stranger's message leaves no trace, that no
window is handed a token, that a digest goes out at most once a day and holds the
file byte for byte. Of the errors of the network, which can hold the address that
was asked and with it the token, they state that a token of the form Telegram gives
out is no longer in them once they are redacted. What Telegram itself says of a
failure is shown as it is.

What the library takes from outside is declared where it is used, with what is
relied on: the clock and the time zone (`clock`), random identifiers (`clock`), the
JSON grammar (`json`), paths (`paths`), character classes (`text`), and the sorting
of integers (`status`).
