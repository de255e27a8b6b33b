# appldown

A terminal UI for downloading Apple Music tracks, albums and playlists as MP3s with embedded
ID3 metadata, built around a library whose logic is verified with Verus.

## Layout

- `src/` — the verified library (`appldown`):
  - `app.rs`: the application state, key handling, worker messages, and their mathematical model
    (`AppState` and the step functions every method's contract is stated in);
  - `app_laws.rs`: the invariants every step keeps and how the steps relate;
  - `route.rs`: which resource an Apple Music link names;
  - `track.rs`: track metadata from iTunes results, service URLs, query encoding, album order;
  - `json.rs`: finding a playlist's tracks in its page: the script elements, the JSON documents
    they hold (and those held inside their strings), and the entries in them;
  - `download.rs`: downloader arguments, file names, what a finished download came to, the
    output folder, tag contents;
  - `worker.rs`: the fetch and download runs, as state machines that say what the worker
    threads do next and which messages they send, with every message sequence stated;
  - `view.rs`: the texts the screen shows;
  - `text.rs`: character-level string helpers;
  - `laws.rs`: properties of the helpers that hold for all inputs;
  - `external.rs`: the contracts believed of `regex`, `url`, `serde_json`, `unicode-width` and `String::push`.
- `app/` — the terminal program: event loop, threads, network, `yt-dlp`, ID3 writing, drawing.
- `tests/` — tests of the library on concrete values.

## Usage

Requires `yt-dlp` and `ffmpeg` on the `PATH`. Paste an Apple Music link and press Enter to queue
it, F5 to fetch the track lists, F6 (or Ctrl+D) to download the pending tracks, Ctrl+L to clear,
PageUp/PageDown to scroll the log, the mouse wheel or Up/Down to move in the track table, and
Ctrl+C or `q` to quit. Files go to `appldown/` in the Downloads folder, at 320 kbps.
