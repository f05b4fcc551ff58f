//! The names of notes.
use std::num::ParseIntError;

use vstd::prelude::*;

use crate::note::{named_note, splits_before_octave};

verus! {

/// Why a text is no name of a note.
#[derive(Debug)]
pub enum NoteNameToMidiError {
    ParseIntError(ParseIntError),
    NameIncorrectLength,
    InvalidNoteName,
}

impl From<ParseIntError> for NoteNameToMidiError {
    fn from(e: ParseIntError) -> (r: Self) {
        NoteNameToMidiError::ParseIntError(e)
    }
}

impl vstd::std_specs::convert::FromSpecImpl<ParseIntError> for NoteNameToMidiError {
    open spec fn obeys_from_spec() -> bool {
        true
    }

    open spec fn from_spec(e: ParseIntError) -> Self {
        NoteNameToMidiError::ParseIntError(e)
    }
}

/// What a name stands for, with the errors of this module.
pub open spec fn note_or_error(name: Seq<char>) -> Result<u8, NoteNameToMidiError> {
    match named_note(name) {
        Ok(note) => Ok(note),
        Err(crate::note::NoteNameToMidiError::ParseIntError(e)) => Err(
            NoteNameToMidiError::ParseIntError(e),
        ),
        Err(crate::note::NoteNameToMidiError::NameIncorrectLength) => Err(
            NoteNameToMidiError::NameIncorrectLength,
        ),
        Err(crate::note::NoteNameToMidiError::InvalidNoteLetter) => Err(
            NoteNameToMidiError::InvalidNoteName,
        ),
    }
}

/// The MIDI note that a name stands for, such as `c#4`.
pub fn note_name_to_midi_note(name: &str) -> (r: Result<u8, NoteNameToMidiError>)
    requires
        splits_before_octave(name@),
    ensures
        r == note_or_error(name@),
{
    match crate::note::note_name_to_midi_note(name) {
        Ok(note) => Ok(note),
        Err(crate::note::NoteNameToMidiError::ParseIntError(e)) => Err(
            NoteNameToMidiError::from(e),
        ),
        Err(crate::note::NoteNameToMidiError::NameIncorrectLength) => Err(
            NoteNameToMidiError::NameIncorrectLength,
        ),
        Err(crate::note::NoteNameToMidiError::InvalidNoteLetter) => Err(
            NoteNameToMidiError::InvalidNoteName,
        ),
    }
}

/// A name stands for the same note here as elsewhere, and what is no name is reported for the same reason.
pub proof fn law_names_stand_for_the_same_notes(name: Seq<char>)
    ensures
        note_or_error(name) is Ok <==> named_note(name) is Ok,
        named_note(name) matches Ok(note) ==> note_or_error(name)->Ok_0 == note,
        named_note(name) matches Err(crate::note::NoteNameToMidiError::ParseIntError(e))
            ==> note_or_error(name)->Err_0 == NoteNameToMidiError::ParseIntError(e),
        named_note(name) matches Err(crate::note::NoteNameToMidiError::NameIncorrectLength)
            ==> note_or_error(name)->Err_0 == NoteNameToMidiError::NameIncorrectLength,
        named_note(name) matches Err(crate::note::NoteNameToMidiError::InvalidNoteLetter)
            ==> note_or_error(name)->Err_0 == NoteNameToMidiError::InvalidNoteName,
{
}

} // verus!
