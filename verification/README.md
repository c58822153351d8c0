# ostt

Recording, remote control and transcription delivery for a terminal
speech-to-text recorder, verified with Verus.

- `src/` is the library. It decides; it does no input or output of its own.
  Every function has a contract. All contracts are proved but those of the six
  wrappers in `outside` and that of `String::push` in `text`, which are believed:
  their doc comments say what is claimed.
- `app/` is the application around it: files, processes, sockets, the terminal
  and the sound system.
- `tests/` runs the library.

## Layout of the library

| module | what it holds |
| --- | --- |
| `app` | the command line: commands, what they lead to, exit codes |
| `commands::session` | the recording loop as a state machine |
| `commands::finish` | from a finished recording to its transcription, step by step |
| `commands::transcript` | running the transcription program and reading its output |
| `commands::output` | pasting and typing the transcription, and its settings |
| `commands::cache` | names and expiry of the kept recordings |
| `commands::record` | failures, and where the transcription goes |
| `recording::audio` | samples, mixing to mono, pausing |
| `recording::saving`, `recording::ffmpeg` | saving and converting a recording |
| `recording::devices`, `recording::pulse` | choosing the input device |
| `recording::ui`, `layout`, `typing`, `clock`, `meter`, `palette`, `transcription_animation` | what the screens show |
| `remote` | requests to a running recorder |
| `config`, `transcription`, `paths` | settings, requests to providers, files |
| `text` | characters, words, lines and numbers |
| `outside` | what is taken on trust of `chrono`, `ratatui` and the standard library |
