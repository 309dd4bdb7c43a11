# watari

Mirrors the X11 (XWayland) CLIPBOARD selection to the Wayland clipboard.

`src/` is a Verus-verified library that holds the decisions:

- `cli` — the command line: flags, errors, help beats version beats run.
- `config` — resolving display and `MIRROR_CLEARS` from flags, environment
  and defaults; boolean spellings; the `--print-config` text.
- `mirror` — what to publish for each clipboard content, and what to
  remember so that nothing is published twice.
- `daemon` — one mirroring step from a source to a sink, the watcher that
  alternates waiting and mirroring, and the reconnect backoff.
- `x11` — the X11 selection protocol's decisions: target choice, owner
  changes, conversion answers, the TARGETS/text read and INCR transfers.
- `wayland` — the sink that hands text to wl-clipboard-rs.
- `text` — character-level string operations (trim, ASCII case, prefixes).

`app/` is the program: argument and environment capture, logging, the
X11 connection and the loops that never end on their own.
