# macos_trackpad_companion

A userspace bridge from touch sources (a PTP digitizer, or a phone or browser
over the network) to macOS gesture events, with its settings tools. The
decision-making core is a Verus library: Verus proves every function in
`src/` against its `requires`/`ensures` contract, except the few small
wrappers around outside calls (listed at the end), whose contracts are
believed as stated.

## Layout

- `src/` — the verified library.
  - `proto` — the ATP1 wire format (encode/decode round trip) and the
    sequence-number tracker.
  - `report` — bit-exact decoding of PTP input reports.
  - `ingest`, `transport`, `net`, `http` — the network input path: the
    authenticated UDP envelope, replay/stale filtering per sender, peer
    ownership and quarantine, the listener's startup rules (which transports
    open, on which address), HTTP routing and bearer/query-token
    authorization, WebSocket framing, and the frame pump's link-fault rules.
  - `config`, `config_edit`, `toml_doc` — the configuration model, the
    explicit paths of a TOML source, reading a settings document, dotted-path
    edits of the TOML document tree, value fragments, the pairing token.
  - `macos_preferences` — normalizing macOS trackpad preferences and merging
    them under explicit settings.
  - `gesture`, `boot`, `output`, `scroll_policy` — finger-count
    classification, the tap rules applied when fingers lift, tap-and-drag
    and press-and-hold engagement, the two-finger tap debounce, drag-lock
    timing, the close-out of a cancelled touch, option mapping, per-app
    gesture policies, modifier routing.
  - `tui` — the settings editor's model: groups, rows, value texts, TOML
    values, adjustments, and navigation state.
  - `text` — byte/string helpers and a set of unique paths.
- `tests/` — executable tests of the library.
- `app/` — the programs around it: argument handling, files, sockets, the
  terminal UI, and the floating-point gesture engine.

Calls into outside crates (`sha1`, `getrandom`, the `toml` parser,
`std::time`, `String::from_utf8`) go through small trusted wrappers whose contracts are
stated next to them.
