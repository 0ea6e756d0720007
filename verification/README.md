# flox_app

The screens and the player of the Flox media shell, as verified Rust: Verus proves every
function in `src/` against its contract. The few that read the clock or call outside
code say of their result only what holds whatever the clock or that code gives back.

- `src/router.rs` — the back stack (Home at the bottom, each screen once).
- `src/player/` — the player controller (a state machine from input to effects and engine
  commands), its overlay navigation and key mapping, the mpv event mapper and the
  `flox://` URLs of library prints.
- `src/vm/` — the view models of Home, Search, Details, Library, Queue, Login (with the QR
  image), Settings and the ingest dialogs (VidLink, pasted links, local files, 4KHDHub),
  including what a loaded title, a loaded season, a 4KHDHub phase and a library refresh
  put on screen, and which late answers are dropped.
- `src/model.rs`, `src/text.rs`, `src/focus.rs`, `src/graphs.rs`, `src/fixtures.rs` — the
  values the screens share, text helpers, focus zones and synthesized fixture images.
- `app/` — the program around the library: command line and temp folder sweep.
- `tests/` — the scenarios, run against the compiled library.
