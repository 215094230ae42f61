# whisrs

Voice-to-text dictation for Linux: a library whose behaviour is stated in
contracts and proved with Verus, and the command line around it.

- `src/dedup` removes what overlapping transcription windows repeat, by word
  timestamps or by the text itself.
- `src/keyboard` builds the keymap of a virtual keyboard and plans the key
  events that type a text, whatever layout the user has.
- `src/audio` encodes recordings as WAV, detects when speech has ended, shapes
  feedback tones and manages recovery files.
- `src/config` holds the configuration: its defaults, validation, masking of
  secrets, the vocabulary file, what of `config.toml` a save keeps and what it
  changes, and the decisions of the setup wizard and the configuration editor.
- `src/clipboard.rs`, `src/cli.rs` and `src/service.rs` decide what the
  clipboard commands, the command line and the service manager are asked for.
- `app/` performs those decisions: prompts, files, the edits to `config.toml`,
  processes, sockets, devices and floating-point sound.

Interactive flows are written as steps: a function takes what is known so far
and says what to do next. The program in `app/` does it and asks again.

Doubles that are only compared are carried as their bits.
