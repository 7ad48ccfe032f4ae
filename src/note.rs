//! Note identities: MIDI note numbers, and their names in scientific pitch notation.
use vstd::prelude::*;

verus! {

/// Number of notes the engine can sound: note numbers `0..NOTE_COUNT`.
pub const NOTE_COUNT: u8 = 127;

/// MIDI number of middle C.
pub const C4: u8 = 60;

/// MIDI number of the E above middle C.
pub const E4: u8 = 64;

/// MIDI number of the G above middle C.
pub const G4: u8 = 67;

/// A musical pitch, identified by its MIDI note number.
#[derive(Clone, Copy, Debug, PartialEq, Eq, Structural, Hash)]
pub struct Note {
    pub midi_id: u8,
}

/// The note with MIDI number `id`.
pub fn midi(id: u8) -> (r: Note)
    ensures
        r.midi_id == id,
{
    Note { midi_id: id }
}

/// Semitones above C of a natural note letter.
pub open spec fn letter_offset(c: char) -> Option<int> {
    if c == 'C' {
        Some(0)
    } else if c == 'D' {
        Some(2)
    } else if c == 'E' {
        Some(4)
    } else if c == 'F' {
        Some(5)
    } else if c == 'G' {
        Some(7)
    } else if c == 'A' {
        Some(9)
    } else if c == 'B' {
        Some(11)
    } else {
        None
    }
}

/// Semitone shift of an accidental: `'#'` sharp, `'b'` flat, `' '` natural.
pub open spec fn accidental_offset(c: char) -> Option<int> {
    if c == '#' {
        Some(1)
    } else if c == 'b' {
        Some(-1)
    } else if c == ' ' {
        Some(0)
    } else {
        None
    }
}

/// The MIDI number of a pitch `semitone` semitones above C in octave `oct`
/// (octave 4 starts at middle C, number 60), when the engine can sound it.
pub open spec fn pitch_index(semitone: int, oct: int) -> Option<int> {
    let i = 12 * (oct + 1) + semitone;
    if 0 <= i < NOTE_COUNT {
        Some(i)
    } else {
        None
    }
}

/// The note named by `note` (a letter `A` to `G`), accidental `modif` and octave
/// `oct`, e.g. `('C', ' ', 4)` is MIDI 60 and `('F', '#', 3)` is MIDI 54.
/// `None` for an unknown letter or accidental, or a pitch outside `0..NOTE_COUNT`.
pub fn getfreq(note: char, modif: char, oct: i8) -> (r: Option<Note>)
    ensures
        r == (match (letter_offset(note), accidental_offset(modif)) {
            (Some(l), Some(a)) => match pitch_index(l + a, oct as int) {
                Some(i) => Some(Note { midi_id: i as u8 }),
                None => None,
            },
            _ => None,
        }),
{
    let shift: i32 = if modif == '#' {
        1
    } else if modif == 'b' {
        -1
    } else if modif == ' ' {
        0
    } else {
        return None;
    };
    match semitone_of(note) {
        Some(l) => note_at(l + shift, oct),
        None => None,
    }
}

/// The natural note named by letter `note` in octave `oct`.
pub fn _getfreq(note: char, oct: i8) -> (r: Option<Note>)
    ensures
        r == (match letter_offset(note) {
            Some(l) => match pitch_index(l, oct as int) {
                Some(i) => Some(Note { midi_id: i as u8 }),
                None => None,
            },
            None => None,
        }),
{
    match semitone_of(note) {
        Some(l) => note_at(l, oct),
        None => None,
    }
}

fn semitone_of(c: char) -> (r: Option<i32>)
    ensures
        match letter_offset(c) {
            Some(l) => r == Some(l as i32),
            None => r is None,
        },
{
    if c == 'C' {
        Some(0)
    } else if c == 'D' {
        Some(2)
    } else if c == 'E' {
        Some(4)
    } else if c == 'F' {
        Some(5)
    } else if c == 'G' {
        Some(7)
    } else if c == 'A' {
        Some(9)
    } else if c == 'B' {
        Some(11)
    } else {
        None
    }
}

fn note_at(semitone: i32, oct: i8) -> (r: Option<Note>)
    requires
        -1 <= semitone <= 12,
    ensures
        r == (match pitch_index(semitone as int, oct as int) {
            Some(i) => Some(Note { midi_id: i as u8 }),
            None => None,
        }),
{
    let i: i32 = 12 * (oct as i32 + 1) + semitone;
    if 0 <= i && i < NOTE_COUNT as i32 {
        Some(Note { midi_id: i as u8 })
    } else {
        None
    }
}

} // verus!
