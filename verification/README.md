# llama_cpp_launcher

The logic of a desktop launcher for llama.cpp's `llama-server`, verified with
Verus: every public function states what it returns in its `ensures`, and the
laws that span several functions are proof functions.

## Layout

- `src/` — the verified library.
  - `launch` builds the server's argument list and the command shown to the
    user; `engine` holds the server's state machine, the bounded log and the
    classification of its output.
  - `downloader`, `updater` and `version` decide which release and asset to
    fetch, track a transfer's progress, compare versions and write the restart
    script.
  - `share`, `share_decl` and `base64url` frame preset share codes (gzip and
    URL-safe Base64 around a JSON payload), leave default parameters out and
    fill them back, and choose the names under which imported presets are
    added. `json` holds JSON documents as plain values (parsed by
    `serde_json`); `presets` takes a preset's fields out of the settings and
    lays them back.
  - `settings`, `dirtree`, `model_files`, `model_meta`, `file_list`, `mcp`,
    `panels`, `appearance`, `geo`, `proxy`, `systemd`, `autostart`, `theme`
    and `platform` hold the remaining decisions of the launcher.
  - `text` and `pattern` are the character-level helpers; `pattern` calls the
    `regex` crate.
- `tests/` — tests on concrete values.
- `app/` — ordinary Rust around the library: settings on disk, the server
  process, HTTP transfers, archives, and what the operating system reports.
