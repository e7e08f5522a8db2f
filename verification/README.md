# Lama Blanket

Lama Blanket is a desktop front end for `llama.cpp`'s `llama-server`: it reads
GGUF model headers, detects the machine, proposes launch settings with
resource estimates, keeps named presets, and starts and watches the server.

## Layout

- `src/` is the library, written in Verus and verified:
  - `text` — decimal rendering, trimming, joining and searching strings;
  - `gguf` — the GGUF header reader, on the file's bytes;
  - `hwdetect` — the hardware summary built from what the drivers report;
  - `config` — default launch settings, KV cache and memory estimates, and
    the server's command line;
  - `order` — a stable sort by a string key;
  - `persistence` — presets (merge, save, delete, import normalisation) and
    the listing of the models folder;
  - `server` — the log buffer, server status and health-check decisions;
  - `tray` — the application icon;
  - `workflow` — the decisions of the window: settings from saved files and
    presets, projector detection, executable lookup, crash handling.
- `tests/` runs the library on concrete values.
- `app/` is the program around it: the `egui` window, the tray icon, files,
  dialogs, hardware queries and the server process.

The properties that hold across calls are the `law_*` proof functions in
`src/`.
