//! The names of notes.
use std::num::ParseIntError;

use vstd::prelude::*;
use vstd::string::*;
use vstd::utf8::{encode_utf8, is_char_boundary};

verus! {

/// `std::num::ParseIntError`, why a text is no number.
#[verifier::external_type_specification]
#[verifier::external_body]
pub struct ExParseIntError(ParseIntError);

/// Why a text is no name of a note.
#[derive(Debug)]
pub enum NoteNameToMidiError {
    ParseIntError(ParseIntError),
    NameIncorrectLength,
    InvalidNoteLetter,
}

impl From<ParseIntError> for NoteNameToMidiError {
    fn from(e: ParseIntError) -> (r: Self) {
        NoteNameToMidiError::ParseIntError(e)
    }
}

impl vstd::std_specs::convert::FromSpecImpl<ParseIntError> for NoteNameToMidiError {
    open spec fn obeys_from_spec() -> bool {
        true
    }

    open spec fn from_spec(e: ParseIntError) -> Self {
        NoteNameToMidiError::ParseIntError(e)
    }
}

/// What a decimal digit counts.
pub open spec fn digit(c: char) -> int {
    c as int - '0' as int
}

/// The number that a text of decimal digits spells.
pub open spec fn decimal(text: Seq<char>) -> int
    decreases text.len(),
{
    if text.len() == 0 {
        0
    } else {
        decimal(text.drop_last()) * 10 + digit(text.last())
    }
}

/// The text is made of decimal digits, at least one.
pub open spec fn is_decimal(text: Seq<char>) -> bool {
    &&& text.len() > 0
    &&& forall|i: int| 0 <= i < text.len() ==> '0' <= #[trigger] text[i] <= '9'
}

/// The text without a plus sign in front.
pub open spec fn without_plus(text: Seq<char>) -> Seq<char> {
    if text.len() > 0 && text[0] == '+' {
        text.skip(1)
    } else {
        text
    }
}

/// What a text is as a `u8`: decimal digits, perhaps behind a plus sign.
pub open spec fn as_u8(text: Seq<char>) -> Option<u8> {
    let digits = without_plus(text);
    if is_decimal(digits) && decimal(digits) <= u8::MAX {
        Some(decimal(digits) as u8)
    } else {
        None
    }
}

/// A single character is a number if it is a digit.
proof fn lemma_one_digit(text: Seq<char>)
    requires
        text.len() == 1,
    ensures
        as_u8(text) == if '0' <= text[0] <= '9' {
            Some(digit(text[0]) as u8)
        } else {
            None
        },
{
    reveal_with_fuel(decimal, 2);
}

/// The error of `str::parse::<u8>` for a text that is no `u8`.
pub uninterp spec fn parse_u8_error(text: Seq<char>) -> ParseIntError;

/// How `ParseIntError` puts itself into words.
pub uninterp spec fn parse_error_text(e: ParseIntError) -> Seq<char>;

/// Calls `str::parse::<u8>`.
#[verifier::external_body]
fn parse_u8(text: &str) -> (r: Result<u8, ParseIntError>)
    ensures
        r == match as_u8(text@) {
            Some(value) => Ok::<u8, ParseIntError>(value),
            None => Err(parse_u8_error(text@)),
        },
{
    text.parse::<u8>()
}

/// Calls `ToString::to_string` on an error of `str::parse`.
#[verifier::external_body]
fn error_to_string(e: &ParseIntError) -> (r: String)
    ensures
        r@ == parse_error_text(*e),
{
    e.to_string()
}

impl NoteNameToMidiError {
    /// The error in words.
    pub open spec fn text(&self) -> Seq<char> {
        match *self {
            NoteNameToMidiError::ParseIntError(e) => {
                "Error parsing note name. Expected characters not an integer. "@ + parse_error_text(e)
            },
            NoteNameToMidiError::NameIncorrectLength => {
                "Error parsing note name. Note name incorrect length."@
            },
            NoteNameToMidiError::InvalidNoteLetter => {
                "Error parsing note name. Note letter not valid. Sould be a to g#"@
            },
        }
    }

    /// Puts the error into words.
    pub fn message(&self) -> (r: String)
        ensures
            r@ == self.text(),
    {
        match self {
            NoteNameToMidiError::ParseIntError(e) => {
                let start = "Error parsing note name. Expected characters not an integer. ".to_owned();
                start.concat(error_to_string(e).as_str())
            },
            NoteNameToMidiError::NameIncorrectLength => {
                "Error parsing note name. Note name incorrect length.".to_owned()
            },
            NoteNameToMidiError::InvalidNoteLetter => {
                "Error parsing note name. Note letter not valid. Sould be a to g#".to_owned()
            },
        }
    }
}

/// The note A0, from which notes are counted.
pub const A0: u8 = 21;

/// How many semitones above A a letter is, with or without a sharp.
pub open spec fn letter_offset(letter: Seq<char>) -> Option<int> {
    if letter == seq!['a'] {
        Some(0)
    } else if letter == seq!['a', '#'] {
        Some(1)
    } else if letter == seq!['b'] {
        Some(2)
    } else if letter == seq!['c'] {
        Some(3)
    } else if letter == seq!['c', '#'] {
        Some(4)
    } else if letter == seq!['d'] {
        Some(5)
    } else if letter == seq!['d', '#'] {
        Some(6)
    } else if letter == seq!['e'] {
        Some(7)
    } else if letter == seq!['f'] {
        Some(8)
    } else if letter == seq!['f', '#'] {
        Some(9)
    } else if letter == seq!['g'] {
        Some(10)
    } else if letter == seq!['g', '#'] {
        Some(11)
    } else {
        None
    }
}

/// The name is two or three bytes long.
pub open spec fn has_note_length(name: Seq<char>) -> bool {
    encode_utf8(name).len() == 2 || encode_utf8(name).len() == 3
}

/// The last byte of the name, where it is two or three bytes long, is a character of its own.
pub open spec fn splits_before_octave(name: Seq<char>) -> bool {
    has_note_length(name) ==> is_char_boundary(
        encode_utf8(name),
        encode_utf8(name).len() - 1,
    )
}

/// The name is a letter from `a` to `g#` and a digit behind it.
pub open spec fn is_note_name(name: Seq<char>) -> bool {
    &&& has_note_length(name)
    &&& as_u8(name.subrange(name.len() - 1, name.len() as int)) is Some
    &&& letter_offset(name.drop_last()) is Some
}

/// What a name stands for: the letter gives the semitones above A, the last character the octave.
/// Where several things are wrong, the length comes first, then the octave, then the letter.
pub open spec fn named_note(name: Seq<char>) -> Result<u8, NoteNameToMidiError> {
    if !has_note_length(name) {
        Err(NoteNameToMidiError::NameIncorrectLength)
    } else {
        let octave = name.subrange(name.len() - 1, name.len() as int);
        match as_u8(octave) {
            None => Err(NoteNameToMidiError::ParseIntError(parse_u8_error(octave))),
            Some(number) => match letter_offset(name.drop_last()) {
                None => Err(NoteNameToMidiError::InvalidNoteLetter),
                Some(offset) => Ok((number * 12 + offset + A0) as u8),
            },
        }
    }
}

/// How many semitones above A a letter is, with or without a sharp.
fn read_letter(letter: &str) -> (r: Option<u8>)
    ensures
        r matches Some(offset) ==> letter_offset(letter@) == Some(offset as int) && offset < 12,
        r is None ==> letter_offset(letter@) is None,
{
    let len: usize = letter.unicode_len();
    if len == 1 {
        let c: char = letter.get_char(0);
        assert(letter@ =~= seq![c]);
        assert(forall|d: char, e: char| letter@ != seq![d, e]) by {
            assert forall|d: char, e: char| letter@ != seq![d, e] by {
                assert(seq![d, e].len() == 2);
            }
        }
        assert(forall|d: char| seq![c] == seq![d] ==> c == d) by {
            assert forall|d: char| seq![c] == seq![d] implies c == d by {
                assert(seq![c][0] == seq![d][0]);
            }
        }
        if c == 'a' {
            Some(0)
        } else if c == 'b' {
            Some(2)
        } else if c == 'c' {
            Some(3)
        } else if c == 'd' {
            Some(5)
        } else if c == 'e' {
            Some(7)
        } else if c == 'f' {
            Some(8)
        } else if c == 'g' {
            Some(10)
        } else {
            None
        }
    } else if len == 2 {
        let c: char = letter.get_char(0);
        let s: char = letter.get_char(1);
        assert(letter@ =~= seq![c, s]);
        assert(forall|d: char| letter@ != seq![d]) by {
            assert forall|d: char| letter@ != seq![d] by {
                assert(seq![d].len() == 1);
            }
        }
        assert(forall|d: char, e: char| seq![c, s] == seq![d, e] ==> c == d && s == e) by {
            assert forall|d: char, e: char| seq![c, s] == seq![d, e] implies c == d && s == e by {
                assert(seq![c, s][0] == seq![d, e][0]);
                assert(seq![c, s][1] == seq![d, e][1]);
            }
        }
        if s != '#' {
            None
        } else if c == 'a' {
            Some(1)
        } else if c == 'c' {
            Some(4)
        } else if c == 'd' {
            Some(6)
        } else if c == 'f' {
            Some(9)
        } else if c == 'g' {
            Some(11)
        } else {
            None
        }
    } else {
        None
    }
}

/// The MIDI note that a name stands for, such as `c#4`.
pub fn note_name_to_midi_note(name: &str) -> (r: Result<u8, NoteNameToMidiError>)
    requires
        splits_before_octave(name@),
    ensures
        r == named_note(name@),
{
    let len: usize = name.as_bytes().len();
    if len != 2 && len != 3 {
        return Err(NoteNameToMidiError::NameIncorrectLength);
    }
    let count: usize = name.unicode_len();
    let octave = name.substring_char(count - 1, count);
    let letter = name.substring_char(0, count - 1);
    proof {
        lemma_one_digit(octave@);
        assert(letter@ =~= name@.drop_last());
    }
    let number: u8 = match parse_u8(octave) {
        Ok(value) => value,
        Err(e) => {
            return Err(NoteNameToMidiError::from(e));
        },
    };
    match read_letter(letter) {
        Some(offset) => Ok(number * 12 + offset + A0),
        None => Err(NoteNameToMidiError::InvalidNoteLetter),
    }
}

/// A letter has one character, or two of which the second is a sharp.
proof fn lemma_letter(letter: Seq<char>)
    requires
        letter_offset(letter) is Some,
    ensures
        1 <= letter.len() <= 2,
        'a' <= letter[0] <= 'g',
        letter.len() == 2 ==> letter[1] == '#',
        0 <= letter_offset(letter)->0 < 12,
{
}

/// Two letters the same number of semitones above A are the same.
proof fn lemma_letters_distinct(a: Seq<char>, b: Seq<char>)
    requires
        letter_offset(a) is Some,
        letter_offset(a) == letter_offset(b),
    ensures
        a == b,
{
}

/// What a name that stands for a note is made of.
proof fn lemma_named(name: Seq<char>)
    requires
        is_note_name(name),
    ensures
        named_note(name) is Ok,
        name.len() > 0,
        '0' <= name.last() <= '9',
        letter_offset(name.drop_last()) is Some,
        0 <= letter_offset(name.drop_last())->0 < 12,
        named_note(name)->Ok_0 == digit(name.last()) * 12 + letter_offset(name.drop_last())->0 + A0,
{
    if name.len() == 0 {
        assert(encode_utf8(name).len() == 0);
    }
    let octave = name.subrange(name.len() - 1, name.len() as int);
    assert(octave[0] == name.last());
    lemma_one_digit(octave);
    lemma_letter(name.drop_last());
}

/// Every letter from `a` to `g#` with every digit behind it is the name of a note.
pub proof fn law_every_letter_has_notes(letter: Seq<char>, octave: char)
    requires
        letter_offset(letter) is Some,
        '0' <= octave <= '9',
    ensures
        splits_before_octave(letter.push(octave)),
        is_note_name(letter.push(octave)),
        named_note(letter.push(octave)) == Ok::<u8, NoteNameToMidiError>(
            (digit(octave) * 12 + letter_offset(letter)->0 + A0) as u8,
        ),
{
    let name = letter.push(octave);
    lemma_letter(letter);
    vstd::utf8::is_ascii_chars_encode_utf8(name);
    assert(encode_utf8(name).len() == name.len());
    let bytes = encode_utf8(name);
    vstd::utf8::encode_utf8_valid_utf8(name);
    vstd::utf8::is_char_boundary_iff_not_is_continuation_byte(bytes, bytes.len() - 1);
    assert(name.drop_last() =~= letter);
    let text = name.subrange(name.len() - 1, name.len() as int);
    assert(text[0] == octave);
    lemma_one_digit(text);
}

/// The notes that have a name go from A0, which is 21, to `g#9`, which is 140.
pub proof fn law_note_range(name: Seq<char>)
    requires
        is_note_name(name),
    ensures
        A0 <= named_note(name)->Ok_0 <= 140,
{
    lemma_named(name);
}

/// Octaves are twelve semitones apart.
pub proof fn law_octaves(low: Seq<char>, high: Seq<char>)
    requires
        is_note_name(low),
        is_note_name(high),
        low.drop_last() == high.drop_last(),
    ensures
        named_note(high)->Ok_0 - named_note(low)->Ok_0 == 12 * (digit(high.last()) - digit(
            low.last(),
        )),
{
    lemma_named(low);
    lemma_named(high);
}

/// No note has two names.
pub proof fn law_one_name_per_note(a: Seq<char>, b: Seq<char>)
    requires
        is_note_name(a),
        is_note_name(b),
    ensures
        named_note(a) == named_note(b) ==> a == b,
{
    lemma_named(a);
    lemma_named(b);
    if named_note(a) == named_note(b) {
        lemma_letters_distinct(a.drop_last(), b.drop_last());
        assert(a =~= a.drop_last().push(a.last()));
        assert(b =~= b.drop_last().push(b.last()));
    }
}

/// A text stands for a note exactly where it is a letter from `a` to `g#` and a digit behind it.
pub proof fn law_only_names_stand_for_notes(name: Seq<char>)
    ensures
        named_note(name) is Ok <==> is_note_name(name),
{
}

/// The letters in their order: an octave begins with `a`, whole steps are two semitones, the steps from `b` to
/// `c` and from `e` to `f` are one, and a sharp is one above its letter.
pub proof fn law_letters_are_a_scale()
    ensures
        letter_offset(seq!['a']) == Some(0int),
        letter_offset(seq!['b']) == Some(2int),
        letter_offset(seq!['c']) == Some(3int),
        letter_offset(seq!['d']) == Some(5int),
        letter_offset(seq!['e']) == Some(7int),
        letter_offset(seq!['f']) == Some(8int),
        letter_offset(seq!['g']) == Some(10int),
        letter_offset(seq!['a', '#']) == Some(1int),
        letter_offset(seq!['c', '#']) == Some(4int),
        letter_offset(seq!['d', '#']) == Some(6int),
        letter_offset(seq!['f', '#']) == Some(9int),
        letter_offset(seq!['g', '#']) == Some(11int),
{
    assert(seq!['a'][0] == 'a' && seq!['b'][0] == 'b' && seq!['c'][0] == 'c' && seq!['d'][0] == 'd');
    assert(seq!['e'][0] == 'e' && seq!['f'][0] == 'f' && seq!['g'][0] == 'g');
    assert(seq!['a', '#'][0] == 'a' && seq!['c', '#'][0] == 'c' && seq!['d', '#'][0] == 'd');
    assert(seq!['f', '#'][0] == 'f' && seq!['g', '#'][0] == 'g');
    assert(seq!['a'].len() == 1 && seq!['b'].len() == 1 && seq!['c'].len() == 1 && seq!['d'].len() == 1);
    assert(seq!['e'].len() == 1 && seq!['f'].len() == 1 && seq!['g'].len() == 1);
    assert(seq!['a', '#'].len() == 2 && seq!['c', '#'].len() == 2 && seq!['d', '#'].len() == 2);
    assert(seq!['f', '#'].len() == 2 && seq!['g', '#'].len() == 2);
}

/// Nothing but these is a letter: one of `a` to `g`, or one of them that has a sharp.
pub proof fn law_only_these_are_letters(letter: Seq<char>)
    ensures
        letter_offset(letter) is Some <==> {
            ||| letter.len() == 1 && 'a' <= letter[0] <= 'g'
            ||| letter.len() == 2 && letter[1] == '#' && (letter[0] == 'a' || letter[0] == 'c'
                || letter[0] == 'd' || letter[0] == 'f' || letter[0] == 'g')
        },
{
    if letter.len() == 1 {
        assert(letter =~= seq![letter[0]]);
    } else if letter.len() == 2 {
        assert(letter =~= seq![letter[0], letter[1]]);
    }
    law_letters_are_a_scale();
}

/// Notes count semitones: from 21 on, twelve for each octave, and within it those of the letter.
pub proof fn law_notes_count_semitones(letter: Seq<char>, octave: char)
    requires
        letter_offset(letter) is Some,
        '0' <= octave <= '9',
    ensures
        named_note(letter.push(octave)) is Ok,
        named_note(letter.push(octave))->Ok_0 == 21 + 12 * (octave as int - '0' as int)
            + letter_offset(letter)->0,
{
    law_every_letter_has_notes(letter, octave);
    lemma_letter(letter);
}

/// Why a text is no name of a note: first its length in bytes counts, then its last character, which has to be
/// a digit, and then its letter.
pub proof fn law_reasons_come_in_order(name: Seq<char>)
    ensures
        ({
            let length = encode_utf8(name).len();
            let right_length = length == 2 || length == 3;
            let ends_in_digit = '0' <= name.last() <= '9';
            &&& !right_length <==> named_note(name) == Err::<u8, NoteNameToMidiError>(
                NoteNameToMidiError::NameIncorrectLength,
            )
            &&& right_length && !ends_in_digit <==> named_note(name) is Err
                && named_note(name)->Err_0 is ParseIntError
            &&& right_length && ends_in_digit && letter_offset(name.drop_last()) is None
                <==> named_note(name) == Err::<u8, NoteNameToMidiError>(
                NoteNameToMidiError::InvalidNoteLetter,
            )
        }),
{
    if name.len() == 0 {
        assert(encode_utf8(name).len() == 0);
    } else {
        let octave = name.subrange(name.len() - 1, name.len() as int);
        assert(octave[0] == name.last());
        lemma_one_digit(octave);
    }
}

/// Every reason is put into words of its own, and a number that could not be read brings the words of its own
/// error.
pub proof fn law_reasons_in_words(e: ParseIntError)
    ensures
        NoteNameToMidiError::ParseIntError(e).text()
            == "Error parsing note name. Expected characters not an integer. "@ + parse_error_text(e),
        NoteNameToMidiError::NameIncorrectLength.text()
            == "Error parsing note name. Note name incorrect length."@,
        NoteNameToMidiError::InvalidNoteLetter.text()
            == "Error parsing note name. Note letter not valid. Sould be a to g#"@,
{
}

/// Every text can be asked about whose last character is not part of a longer one: any of ASCII characters, and
/// any that is too short or too long for a name.
pub proof fn law_texts_that_can_be_asked_about(name: Seq<char>)
    requires
        vstd::utf8::is_ascii_chars(name) || encode_utf8(name).len() < 2 || encode_utf8(name).len() > 3,
    ensures
        splits_before_octave(name),
{
    if has_note_length(name) {
        vstd::utf8::is_ascii_chars_encode_utf8(name);
        let bytes = encode_utf8(name);
        let last = name.len() - 1;
        let c = name[last];
        assert('\0' <= c <= '\u{7f}');
        assert(bytes[last] == c as u8);
        assert(bytes[last] <= 0x7f);
        vstd::utf8::encode_utf8_valid_utf8(name);
        vstd::utf8::is_char_boundary_iff_not_is_continuation_byte(bytes, bytes.len() - 1);
    }
}

} // verus!
