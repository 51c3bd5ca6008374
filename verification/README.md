# copperd

`copperd` is the Copper extension daemon: it loads extension manifests,
serves a settings UI and a local control plane, brokers capability requests
from WASM components, schedules background actions and drives the tray and
display helpers. Its logic is written in Verus and proved against the
contracts stated on each function.

## Layout

- `src/` — the verified library. Among its modules:
  - `extension`, `descriptor`, `schema`, `core_config`: manifests, the
    registry of extensions and which of them are enabled.
  - `capability`, `bones`, `jobs`, `runtime`: the capability broker (with
    its per-sender and shared queue limits and replay window), the
    component driver and the capability jobs.
  - `http`, `settings`, `config_ui`, `daemon`, `control_plane`: request
    parsing, the settings API, the control-plane routes and its token.
  - `scheduler`: reload timing and background actions (times in
    nanoseconds on the scheduler's own clock).
  - `tray`, `tray_assets`, `display_tray`, `windows_display`, `hotkey`,
    `keyboard`: tray menus and icons, display settings, hotkeys and key
    combinations.
  - `json`, `chars`, `text`, `numbers`: the JSON model and text helpers
    the rest is stated over.
  Public proof functions named `law_...` state properties that span
  several calls, such as the broker's queue limits, the background schedule
  and the idempotence of key-combo normalization.
- `app/` — the program around the library: the command line, sockets,
  files, signals, serialization through serde, and the main loop.
- `tests/` — tests of the library on concrete values.

Calls into outside crates (resvg, tiny-skia, serde_json, semver, dirs,
rand_core) and a few std functions go through small trusted wrappers, each
with a doc comment that says what its contract claims.
