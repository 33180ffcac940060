# arch_sunshine

The runtime of an Arch Linux container that streams a KDE Plasma Wayland
desktop to Moonlight through Sunshine: encoder probing and GStreamer pipeline
text, display geometry and scale handling, the desktop session plan, the
PipeWire audio sink plan, the Sunshine disconnect flow and the terminal console.

## Layout

- `src/` is the verified library. Every function states its behaviour in
  `requires` / `ensures` over spec functions and is proved by Verus.
  - `text`, `lines`, `order`, `table`, `decimal`, `round_trip`, `json`: text,
    number reading and display, line and word splitting, sorting, key
    lookup, and JSON values with their compact text.
  - `paths`, `env_config`: runtime paths and the sanitizing of geometry, scale,
    refresh rate and audio channel settings.
  - `encoder`: encoder choice, encoder status and pipeline rendering.
  - `desktop`: the session and compositor start plans, environment, KDE
    configuration writes, file system setup, PipeWire sink plans, the control
    channel's decisions and the D-Bus bus start.
  - `sunshine_api`: credentials and the disconnect attempts.
  - `tui`: the console's state, key handling, shell keys and layout.
  - Public `law_*` proof functions state properties that span several calls.
- `app/` is the program around the library: command line, processes, files,
  D-Bus, HTTP, the pseudo-terminal and drawing. It performs the steps the
  library plans and hands the results back.
- `tests/` runs the library on concrete values.
