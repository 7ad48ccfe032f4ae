use synth::note::{_getfreq, getfreq, midi, Note, C4, E4, G4, NOTE_COUNT};

#[test]
fn midi_keeps_the_number() {
    assert_eq!(midi(60), Note { midi_id: 60 });
    assert_eq!(midi(0).midi_id, 0);
    assert_eq!(midi(200).midi_id, 200);
}

#[test]
fn named_pitches() {
    assert_eq!(C4, 60);
    assert_eq!(E4, 64);
    assert_eq!(G4, 67);
    assert_eq!(NOTE_COUNT, 127);
}

#[test]
fn getfreq_naturals_and_accidentals() {
    assert_eq!(getfreq('C', ' ', 4), Some(midi(60)));
    assert_eq!(getfreq('A', ' ', 4), Some(midi(69)));
    assert_eq!(getfreq('F', '#', 3), Some(midi(54)));
    assert_eq!(getfreq('B', 'b', 4), Some(midi(70)));
    assert_eq!(getfreq('C', ' ', -1), Some(midi(0)));
    assert_eq!(getfreq('F', '#', 9), Some(midi(126)));
}

#[test]
fn getfreq_rejects_unknown_names_and_range() {
    assert_eq!(getfreq('H', ' ', 4), None);
    assert_eq!(getfreq('C', '?', 4), None);
    assert_eq!(getfreq('G', ' ', 9), None);
    assert_eq!(getfreq('C', 'b', -1), None);
    assert_eq!(getfreq('C', ' ', 127), None);
    assert_eq!(getfreq('C', ' ', -128), None);
}

#[test]
fn natural_getfreq() {
    assert_eq!(_getfreq('E', 4), Some(midi(64)));
    assert_eq!(_getfreq('G', 4), Some(midi(67)));
    assert_eq!(_getfreq('G', 9), None);
    assert_eq!(_getfreq('c', 4), None);
}
