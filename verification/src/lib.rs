//! A player for MIDI songs.
//!
//! A [`Player`] is told by [`Command`]s what to do, which a [`MidiPlayerController`] sends. It reads a
//! [`MidiSong`], lets the events of its tracks happen in the order of their ticks, hands the messages
//! among them to a [`Synth`], and draws frames of audio from it that go through a ring buffer to a
//! [`MidiPlayerOutput`].
//!
//! The library decides and the program around it acts: the player says what is to be done next, such
//! as to read a file or to sleep, and is told what came of it. Samples are held as the bit patterns of
//! 32-bit floats and only moved about. What needs floating point, such as the length of a tick in
//! samples, is up to the program.
//!
//! [`midi`] holds a simpler player, and [`sampler`] instruments that are made of recorded notes.

pub mod command;
pub mod console;
pub mod controller;
pub mod frame;
pub mod midi;
pub mod note;
pub mod output;
pub mod playback;
pub mod player;
pub mod ring;
pub mod sampler;
pub mod smf;
pub mod song;
pub mod synth;
pub mod transport;

pub use command::Command;
pub use controller::{MidiPlayerController, MidiPlayerControllerCommunicationError};
pub use frame::Frame;
pub use note::{note_name_to_midi_note, NoteNameToMidiError};
pub use output::MidiPlayerOutput;
pub use playback::{Fired, Playback};
pub use player::{Action, Event, Player};
pub use smf::{EventKind, MidiMessage, Timing, TrackEvent};
pub use song::{MidiSong, TimedEvent};
pub use synth::Synth;
pub use transport::Transport;
