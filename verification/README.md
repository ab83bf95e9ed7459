# gmplayer

The playback and window-management core of a desktop music player, written
in Verus: executable Rust whose behaviour is stated in `requires` / `ensures`
contracts and proved.

## Layout

- `src/` — the verified library.
  - `manifest.rs`, `planner.rs`: the playback manifest, its traversal order
    (a seeded Fisher–Yates permutation in random mode) and the planner that
    decides what plays next, with its failure policy.
  - `source_resolver.rs`, `resolution.rs`: the NCM → UNM source resolution
    policy, URL normalisation, credential redaction, and the resolution
    procedure as a sequence of decisions on plain values.
  - `source_cache.rs`: the one-ahead prepared-source slot with generation
    tokens.
  - `window_effects.rs`, `host_backdrop.rs`, `minimize_guard.rs`,
    `webview_memory.rs`, `hwnd_map.rs`: the decisions behind window
    materials, the backdrop registry, the minimize guard and WebView2
    memory management.
  - `text.rs`, `types.rs`: text helpers and the shared data types.
- `tests/` — tests run against the compiled library.
- `app/` — the thin unverified shell: HTTP and file access, audio output,
  Tauri and Win32 calls, which perform the actions the library decides on.
