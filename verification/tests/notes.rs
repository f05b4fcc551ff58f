use rusty_sample_player::midi;
use rusty_sample_player::{note_name_to_midi_note, NoteNameToMidiError};

const LETTERS: [&str; 12] = ["a", "a#", "b", "c", "c#", "d", "d#", "e", "f", "f#", "g", "g#"];

#[test]
fn every_letter_has_its_note() {
    for (offset, letter) in LETTERS.iter().enumerate() {
        for octave in 0..10u8 {
            let name = format!("{}{}", letter, octave);
            assert_eq!(note_name_to_midi_note(&name).unwrap(), octave * 12 + offset as u8 + 21);
            assert_eq!(
                midi::note_name_to_midi_note(&name).unwrap(),
                octave * 12 + offset as u8 + 21
            );
        }
    }
}

#[test]
fn known_notes() {
    assert_eq!(note_name_to_midi_note("a0").unwrap(), 21);
    assert_eq!(note_name_to_midi_note("a4").unwrap(), 69);
    assert_eq!(note_name_to_midi_note("c#4").unwrap(), 73);
    assert_eq!(note_name_to_midi_note("g#9").unwrap(), 140);
}

#[test]
fn octaves_are_twelve_semitones_apart() {
    let low = note_name_to_midi_note("d#2").unwrap();
    let high = note_name_to_midi_note("d#5").unwrap();
    assert_eq!(high - low, 36);
}

#[test]
fn names_are_told_apart() {
    let mut notes: Vec<u8> = Vec::new();
    for letter in LETTERS {
        for octave in 0..10u8 {
            notes.push(note_name_to_midi_note(&format!("{}{}", letter, octave)).unwrap());
        }
    }
    notes.sort();
    let count = notes.len();
    notes.dedup();
    assert_eq!(notes.len(), count);
    assert_eq!((notes[0], notes[count - 1]), (21, 140));
}

#[test]
fn length_is_checked_first() {
    for name in ["", "a", "a#10", "what"] {
        assert!(matches!(
            note_name_to_midi_note(name),
            Err(NoteNameToMidiError::NameIncorrectLength)
        ));
        assert!(matches!(
            midi::note_name_to_midi_note(name),
            Err(midi::NoteNameToMidiError::NameIncorrectLength)
        ));
    }
}

#[test]
fn octave_is_checked_before_letter() {
    for name in ["ab", "xx", "a#+", "x y"] {
        assert!(matches!(
            note_name_to_midi_note(name),
            Err(NoteNameToMidiError::ParseIntError(_))
        ));
        assert!(matches!(
            midi::note_name_to_midi_note(name),
            Err(midi::NoteNameToMidiError::ParseIntError(_))
        ));
    }
}

#[test]
fn letter_is_checked_last() {
    for name in ["h4", "A4", "b#4", "e#4", "ab4"] {
        assert!(matches!(
            note_name_to_midi_note(name),
            Err(NoteNameToMidiError::InvalidNoteLetter)
        ));
        assert!(matches!(
            midi::note_name_to_midi_note(name),
            Err(midi::NoteNameToMidiError::InvalidNoteName)
        ));
    }
}

#[test]
fn characters_of_two_bytes_count_as_two() {
    assert!(matches!(
        note_name_to_midi_note("\u{e9}4"),
        Err(NoteNameToMidiError::InvalidNoteLetter)
    ));
}

#[test]
fn errors_put_into_words() {
    let parse = note_name_to_midi_note("ab").unwrap_err();
    assert_eq!(
        parse.message(),
        "Error parsing note name. Expected characters not an integer. invalid digit found in string"
    );
    let length = note_name_to_midi_note("a").unwrap_err();
    assert_eq!(length.message(), "Error parsing note name. Note name incorrect length.");
    let letter = note_name_to_midi_note("h4").unwrap_err();
    assert_eq!(
        letter.message(),
        "Error parsing note name. Note letter not valid. Sould be a to g#"
    );
}

#[test]
fn parse_errors_convert() {
    let e = "x".parse::<u8>().unwrap_err();
    assert!(matches!(
        NoteNameToMidiError::from(e.clone()),
        NoteNameToMidiError::ParseIntError(_)
    ));
    assert!(matches!(
        midi::NoteNameToMidiError::from(e),
        midi::NoteNameToMidiError::ParseIntError(_)
    ));
}
