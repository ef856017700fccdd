# messauto

A menu-bar helper for macOS that watches Messages.app and Mail.app for
verification codes and types, pastes or shows them.

`src/` is the verified library (Verus). It holds every decision the
program makes:

- `text` — lines, trim, prefix/substring search, field splitting and
  joining over characters, each with the meaning `str` gives it;
- `numbers` — reading an `i64` as `str::parse` does, writing decimals;
- `mail` — the plain text of a mail: the `text/plain` part of a parsed MIME
  message, or the `text/plain` sections of a multipart body read by lines;
- `messages` — the query for new rows of `chat.db` and reading the rows
  `sqlite3` prints, with the last row id carried from query to query;
- `watch` — which file-system events and paths the watchers look at;
- `config` — the settings and what they make of a code that was found;
- `monitor` — which watchers run, as a state machine over commands;
- `tray` — the menu layout, which switches are usable, and what each click
  changes and asks for;
- `floating` — the floating window: command line, lifetime, clicks, colours;
- `language` — the interface language for the system locale;
- `updater` — update channel, proxy, when a check is due, the steps of a check;
- `notification` — the AppleScript dialog and launch-at-login decisions.

`app/` is the program around it: file, process and network I/O, the
watchers, the tray icon and the floating window, each carrying out what the
library decided.
