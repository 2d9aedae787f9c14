# TypoMorph

TypoMorph notices when a word was typed with the wrong keyboard layout
(`ghbdtn` for `привет`) and retypes it in the right one. Everything that
decides something is in the library under `src/`, written in Verus with
contracts that the verifier proves; the binary under `app/` reads devices,
talks to the desktop and the network, and runs the loops.

## Library (`src/`)

- `text`: whitespace, trimming, substring search and the small text
  operations the rest shares.
- `ring_buffer`: the bounded buffer of the latest typed characters.
- `filter`, `table`, `classifier`: the forbidden-run trie, the profile
  tables, and the language classifier with its confidence (in millionths).
- `layout`: the US and Russian key maps, text correction between them, and
  the decision whether to switch layout.
- `prompt`, `improver`: prompt detection and the offline prompt cleanup.
- `cloud`: the Anthropic and managed cloud backends for prompt improvement.
- `licensing`: hashed license status, its integrity check, feature gates and
  turning an activation reply into a status.
- `native`: the Native Messaging frame codec and request handler.
- `platform`: which input devices are keyboards, key events, the merged
  event stream, and what the virtual keyboard emits.
- `daemon`: the keystroke state machine of the daemon, the `test-input`
  line step, and `improve-prompt` routing.
- `tray`: the tray icon's pixels and menu labels.
- `laws`: properties that relate several operations.

## Binary (`app/`)

`typomorph run | test-input | improve-prompt | license activate | status`.
Started under a file name ending in `native-host` (a link to the same
binary), it serves the browser extensions over stdin and stdout instead.

The bring-your-own-key cloud path asks the Anthropic API for the model named
by `TYPOMORPH_ANTHROPIC_MODEL`; the key comes from `--api-key` or
`TYPOMORPH_ANTHROPIC_KEY`.
