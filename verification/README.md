# andremul

The verified core of a desktop host that boots an Android emulator, adopts
one that is already running, hardens it for kiosk use, auto-launches an app
and mirrors it with scrcpy.

- `src/` — the library, verified with Verus:
  - `text` — line, word and whitespace handling of tool output, pattern
    search, decimal numbers;
  - `order` — lexicographic order and newest-first listings;
  - `host` — platform names (ABI, download names, executable suffixes);
  - `paths` — paths as text, existence probes, the home directory;
  - `sdk` — SDK tool locations, SDK root and JDK resolution, tool environment;
  - `adb`, `emulator`, `scrcpy` — command lines and output parsers;
  - `bootstrap` — SDK setup decisions: command-line tools build, download
    locations, AVD settings, progress lines;
  - `session` — remembered state, start and launch decisions, and the
    boot-watch state machine (wait for the device and its boot, then kiosk
    settings, auto-launch and the scrcpy display, in that order).
- `app/` — the Tauri program around it: process spawning, file and network
  I/O, UI events.
- `tests/` — tests of the library on concrete values.
