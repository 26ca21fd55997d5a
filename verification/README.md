# rusteze

A local-first command-line meeting recorder. `rusteze start [title] [--mic|--mic-only]`
records a meeting into a session folder, keeps its lifecycle in `session.json`,
and stops cleanly on Ctrl+C; `request-permissions`, `create-meeting`,
`prepare-audio` and `transcribe` complete the command set.

## Layout

- `src/` is the library, written in Verus: every function there carries a
  contract that Verus proves.
  - `cli`: the argument grammar of `start` and of the permission commands.
  - `native_helper`: capture modes, permission status and guidance, the capture
    helper's protocol and its error kinds.
  - `meeting`: session folder names, the session lifecycle, `session.json`,
    crash recovery of that metadata and the disk-space reserve.
  - `recovery`: laws relating the metadata a session writes to what crash
    recovery makes of it.
  - `metadata_json`: the law that `session.json` is valid JSON.
  - `lifecycle`: the decisions of the foreground `start` command as a state
    machine from outcome to next action.
  - `audio`: WAV headers and the conversion of 32-bit float samples to 16-bit PCM.
  - `windows`, `linux`, `unsupported`: the platform-independent decisions of
    each capture backend (format parsing, sample decoding, the writer loop).
  - `transcription`, `prepare_audio`: transcript formats and the preparation of
    audio for transcription tools.
  - `text`: character-level string building and searching with exact specifications.
- `app/` is the program around the library: argument routing, files, processes,
  devices and signals.
- `tests/` runs the library on concrete inputs.
