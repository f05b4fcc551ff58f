# rusty_sample_player

A player for MIDI songs, and instruments that are made of recorded notes. The library is written in
Verus: what its functions do is stated in their contracts and proved.

- `src/` is the library. `player.rs`, `transport.rs` and `playback.rs` hold the player, `song.rs` and
  `smf.rs` the songs, `synth.rs`, `ring.rs` and `output.rs` the way of the frames from a synthesizer to
  the output, `controller.rs`, `command.rs` and `console.rs` the commands, `note.rs` the names of notes.
  `midi/` is a simpler player and `sampler/` the instruments.
- `app/` is the program around it: threads, files, the audio device, and all that is floating point.
- `tests/` runs the library.

What is believed of other crates stands next to the calls: of `midly` in `smf.rs`,
of `itertools` in `song.rs`, of `ringbuf` in `ring.rs`, of `wav` in
`sampler/wav_file.rs`, and of the standard library in `command.rs`, `console.rs`, `note.rs` and
`sampler/wav_file.rs`.
