# estm

The rules of ESTM, a clipboard history for the desktop, as a Verus library
whose functions carry proved contracts, and the desktop application around it.

- `src/text.rs`: trimming, white-space collapsing, ASCII case mapping and
  string building over `Seq<char>`, with lemmas (trim is idempotent, splitting
  joined words gives them back, byte length agrees with vstd's UTF-8 encoding).
- `src/db.rs`: fingerprints, what a clipboard capture stores or refreshes
  (consecutive duplicate suppression), labels, `LIKE` search patterns and the
  retention policy (age limit for unpinned clips, row cap).
- `src/settings.rs`: the picker shortcut, the quick-pick prefix and the
  history limits: validation, defaults, labels, migration of stored settings.
- `src/clipboard_watch.rs`, `src/focus_restore.rs`, `src/shell.rs`: the
  decisions of the clipboard watcher, of which application regains focus and
  of the picker window.
- `app/`: SQLite, the settings file, the system clipboard and the Tauri shell,
  which hand plain values to the library and act on what it returns.
