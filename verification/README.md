# tategoto

The verified core of Tategoto, a menu-bar app that transcribes the microphone
continuously and appends the result to daily Markdown and JSONL files.

- `src/` is the library, checked by Verus:
  - `clock` — timestamps as seconds, nanoseconds and UTC offset, with chrono
    doing the calendar work;
  - `text` — trimming, ASCII lower-casing and substring search over characters;
  - `audio` — PCM16 audio blocks, their duration, and the resampling plan;
  - `devices` — stable input device ids and choosing the device to record from;
  - `model` — recording status, settings and the start / stop / error transitions;
  - `tray` — menu-bar title, tooltip and menu;
  - `speech` — the recognizer's settings, callback registry and stop latch;
  - `session` — the decisions of a recording session, and placing recognizer
    offsets at the capture times of the audio blocks they fall in;
  - `transcript` — file names, a new day's Markdown and what each segment appends;
  - `turns` — per-turn timing of a Realtime session, as a map by item id;
  - `realtime` — the Realtime timeline and how server events change it.
- `app/` is the Tauri application around it: windows, tray, microphone capture,
  the Swift bridge, files and network.
- `tests/` runs the library on concrete values.
