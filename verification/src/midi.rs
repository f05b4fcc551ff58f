//! A simpler player, for synthesizers that fill frames instead of samples.
//!
//! It lets an event happen as soon as it is fetched and then draws frames until the next one is due,
//! waits for commands as long as it takes, and fills a pause with silent frames. Its controller does not report commands that got lost.

pub mod controller;
pub mod note;
pub mod output;
pub mod player;
pub mod synth;

pub use crate::command::Command;
pub use crate::frame::Frame;
pub use crate::smf::MidiMessage;
pub use crate::song::MidiSong;
pub use controller::MidiPlayerController;
pub use note::{note_name_to_midi_note, NoteNameToMidiError};
pub use output::MidiPlayerOutput;
pub use player::{Action, Event, Player};
pub use synth::{fill_silence, render, SongCursor, Synth, Taken};
