# soundeq

The verified core of soundEQ, a system-wide parametric equalizer for Windows,
written in Verus.

- `src/` — the library, every function proved against its contract:
  - `profile.rs` — profiles, validation, the profile store with per-app
    routing, switching flags and session volumes, renaming, import-name
    resolution, and the routing laws.
  - `assoc.rs` — the string-keyed association lists the store is built on.
  - `filter_type.rs` — filter types, band settings, coefficient-formula choice.
  - `filter_chain.rs` — the fixed bank of filter slots behind the EQ chain.
  - `crossfeed.rs` — crossfeed settings and the inter-aural delay rings.
  - `render.rs` — the bounded sample queue between capture and render, and
    the render-buffer fill.
  - `capture.rs` — mix-format checks, packet gating, stereo extraction.
  - `apo.rs` — the decisions of the audio processing object (class match,
    aggregation, object count, buffer gating, registration name).
  - `device.rs`, `spectrum.rs`, `control.rs`, `text.rs` — endpoint
    descriptions, spectrum bin ranges, tray state, focus routing steps,
    restart plans, startup command line, decimal and trimming helpers.
- `tests/` — ordinary Rust tests of the library.
- `app/` — the program around it: WASAPI capture and render, FFT, the
  floating-point filter arithmetic, JSON persistence, registry access and the
  command loop.
