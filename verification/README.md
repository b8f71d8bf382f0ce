# wechat_pc_auto

The rules of a desktop listener for WeChat on macOS, written in Verus and
proved against their contracts.

`src/` is the verified library:

- `text` — whitespace collapsing, zero-width stripping, trimming, prefix keys.
- `adapter::ax_reader` — what the accessibility tree shows: session-list
  previews (sender, body, unread count), the active chat's name and member
  count, the main window, popups, message bubbles and their sides.
- `adapter::applescript` — the AppleScript programs that drive WeChat and the
  reading of their answers; `adapter::MacOSAdapter` gates every reading on the
  platform.
- `monitor_ingest` — which messages of a poll are new (ordered anchor, then a
  multiset fallback), sender defaults, sender clues from session previews and
  their time-limited cache, senders inherited from an earlier reading.
- `store` — records of the message store, content hashes used for
  deduplication, the choice of the preview row a detailed message corrects,
  query texts, summary participants, bags of recent hashes.
- `chat_agent` — bounded conversation histories, sessions by id, the
  read-only SQL guard and the texts around a chat request.
- `runtime`, `settings`, `history`, `preflight`, `avatar`, `audio`,
  `debug_text` — counters and projections, settings defaults and checks,
  summary request checks and empty summaries, the permission request, cache names, listing helpers.
- `keyed` — small maps kept as vectors with unique names.
- `bindings` — the trusted calls into `regex`, `sha2`, `md5`, `chrono`,
  `uuid` and std's case mapping.

`app/` is the host side: running `osascript`, the SQLite store, the settings
file, the avatar directory and the geometry of bubbles (fractional
coordinates).
