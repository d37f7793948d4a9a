# appdock

The decision-making core of AppDock, a macOS workspace that docks other
applications' windows as tabs, written in Verus and verified.

- `src/` — the verified library.
  - `onboarding` — setup steps and their evidence gates, installer/installed
    copy detection, the picker's empty-state text, signing-metadata filtering.
  - `setup` — the setup wizard: button outcomes, refresh transitions and the
    text of every screen.
  - `schedule` — snapshot/discovery and update-probe deadlines.
  - `window_tracking` — whether a selected window is buried and how a reveal
    proceeds.
  - `event_log` — log location, rotation, pause records, UTC timestamps.
  - `calendar` — the Gregorian calendar and the proof that the era-based
    date arithmetic finds the right date.
  - `updater` — when in-app updates may be offered.
  - `paths`, `text` — `std::path` calls and character-level text helpers.
- `tests/` — scenario tests, including comparisons with `std::path`
  behaviour.
- `app/` — the native edges (files, clock, environment, CoreGraphics window
  lists, Sparkle) and floating-point layout, calling the library. It needs
  macOS to build.
