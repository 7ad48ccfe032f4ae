use synth::engine::{Frame, SynthError, Synthesizer, Voice};
use synth::envelope::{step_for, NoteEnvelope, NoteState, UNITY};
use synth::note::midi;

const UP: i64 = 11_337_869;
const DOWN: i64 = 113_379;

fn voices(f: &Frame) -> Vec<(u8, i64)> {
    f.voices.iter().map(|v| (v.note.midi_id, v.intensity)).collect()
}

#[test]
fn default_parameters() {
    let s = Synthesizer::new();
    assert_eq!(s.sample_rate(), 44100);
    assert_eq!(s.channel_count(), 2);
    assert_eq!(s.current_sample(), 0);
    assert_eq!(s.note_state(midi(60)), None);
}

#[test]
fn step_sizes() {
    assert_eq!(step_for(44100, 2000), UP);
    assert_eq!(step_for(44100, 200_000), DOWN);
    assert_eq!(step_for(1000, 1_000_000), 1_000_000);
    assert_eq!(step_for(1, 1), UNITY);
    assert_eq!(step_for(u32::MAX, u64::MAX), 1);
}

#[test]
fn silence_without_notes() {
    let mut s = Synthesizer::new();
    for k in 0..1000u64 {
        let f = s.next_frame();
        assert_eq!(f.sample_index, k);
        assert!(f.voices.is_empty());
    }
    assert_eq!(s.current_sample(), 1000);
}

#[test]
fn first_sample_of_a_played_note() {
    let mut s = Synthesizer::new();
    assert_eq!(s.play_note(midi(60)), Ok(()));
    let f = s.next_frame();
    assert_eq!(f.sample_index, 0);
    assert_eq!(voices(&f), vec![(60, UP)]);
    assert_eq!(
        s.note_state(midi(60)),
        Some(NoteState { intensity: UP, envelope: NoteEnvelope::Attack })
    );
}

#[test]
fn attack_rises_then_sustains() {
    let mut s = Synthesizer::new();
    s.play_note(midi(60)).unwrap();
    let mut last = 0;
    for k in 1..=88i64 {
        let f = s.next_frame();
        assert_eq!(voices(&f), vec![(60, k * UP)]);
        assert!(k * UP > last);
        last = k * UP;
        assert_eq!(s.note_state(midi(60)).unwrap().envelope, NoteEnvelope::Attack);
    }
    let f = s.next_frame();
    assert_eq!(voices(&f), vec![(60, 89 * UP)]);
    assert_eq!(89 * UP, 1_009_070_341);
    assert_eq!(
        s.note_state(midi(60)),
        Some(NoteState { intensity: 1_009_070_341, envelope: NoteEnvelope::Sustain })
    );
    for _ in 0..500 {
        let f = s.next_frame();
        assert_eq!(voices(&f), vec![(60, 1_009_070_341)]);
    }
}

#[test]
fn release_falls_then_prunes() {
    let mut s = Synthesizer::new();
    s.play_note(midi(64)).unwrap();
    for _ in 0..100 {
        s.next_frame();
    }
    s.stop_note(midi(64));
    assert_eq!(
        s.note_state(midi(64)),
        Some(NoteState { intensity: 1_009_070_341, envelope: NoteEnvelope::Release })
    );
    let mut level = 1_009_070_341i64;
    for _ in 0..8899 {
        let f = s.next_frame();
        level -= DOWN;
        assert!(level > 0);
        assert_eq!(voices(&f), vec![(64, level)]);
    }
    let f = s.next_frame();
    assert_eq!(voices(&f), vec![(64, -2759)]);
    assert_eq!(s.note_state(midi(64)), None);
    for _ in 0..10 {
        assert!(s.next_frame().voices.is_empty());
    }
    assert_eq!(s.play_note(midi(64)), Ok(()));
    assert_eq!(
        s.note_state(midi(64)),
        Some(NoteState { intensity: 0, envelope: NoteEnvelope::Attack })
    );
}

#[test]
fn stop_right_after_play() {
    let mut s = Synthesizer::new();
    s.play_note(midi(10)).unwrap();
    s.stop_note(midi(10));
    assert_eq!(
        s.note_state(midi(10)),
        Some(NoteState { intensity: 0, envelope: NoteEnvelope::Release })
    );
    let f = s.next_frame();
    assert_eq!(voices(&f), vec![(10, -DOWN)]);
    assert_eq!(s.note_state(midi(10)), None);
}

#[test]
fn stop_of_unknown_note_is_a_no_op() {
    let mut s = Synthesizer::new();
    s.stop_note(midi(60));
    s.stop_note(midi(200));
    assert_eq!(s.note_state(midi(60)), None);
    assert!(s.next_frame().voices.is_empty());
}

#[test]
fn out_of_range_note_is_refused() {
    let mut s = Synthesizer::new();
    assert_eq!(s.play_note(midi(127)), Err(SynthError::NoteOutOfRange));
    assert_eq!(s.play_note(midi(255)), Err(SynthError::NoteOutOfRange));
    assert_eq!(s.note_state(midi(127)), None);
    assert!(s.next_frame().voices.is_empty());
    assert_eq!(s.play_note(midi(126)), Ok(()));
    assert_eq!(voices(&s.next_frame()), vec![(126, UP)]);
}

#[test]
fn replay_restarts_the_envelope() {
    let mut s = Synthesizer::new();
    s.play_note(midi(67)).unwrap();
    for _ in 0..5 {
        s.next_frame();
    }
    assert_eq!(s.note_state(midi(67)).unwrap().intensity, 5 * UP);
    s.play_note(midi(67)).unwrap();
    assert_eq!(
        s.note_state(midi(67)),
        Some(NoteState { intensity: 0, envelope: NoteEnvelope::Attack })
    );
    assert_eq!(voices(&s.next_frame()), vec![(67, UP)]);
}

#[test]
fn two_notes_sound_as_each_alone() {
    let mut both = Synthesizer::new();
    let mut a = Synthesizer::new();
    let mut b = Synthesizer::new();
    both.play_note(midi(64)).unwrap();
    both.play_note(midi(60)).unwrap();
    a.play_note(midi(60)).unwrap();
    b.play_note(midi(64)).unwrap();
    for k in 0..300 {
        if k == 150 {
            both.stop_note(midi(60));
            a.stop_note(midi(60));
        }
        let fb = both.next_frame();
        let fa = a.next_frame();
        let f2 = b.next_frame();
        let mut joined: Vec<Voice> = fa.voices.clone();
        joined.extend(f2.voices.iter().copied());
        joined.sort_by_key(|v| v.note.midi_id);
        assert_eq!(fb.voices, joined);
        assert_eq!(fb.sample_index, fa.sample_index);
    }
}

#[test]
fn custom_parameters() {
    let mut s = Synthesizer::with_params(1000, 1, 1_000_000, 500_000);
    assert_eq!(s.sample_rate(), 1000);
    assert_eq!(s.channel_count(), 1);
    s.play_note(midi(69)).unwrap();
    for k in 1..=1000i64 {
        assert_eq!(voices(&s.next_frame()), vec![(69, k * 1_000_000)]);
    }
    assert_eq!(s.note_state(midi(69)).unwrap().envelope, NoteEnvelope::Sustain);
    s.stop_note(midi(69));
    for k in 1..500i64 {
        assert_eq!(voices(&s.next_frame()), vec![(69, UNITY - k * 2_000_000)]);
    }
    assert_eq!(voices(&s.next_frame()), vec![(69, 0)]);
    assert_eq!(s.note_state(midi(69)), None);
    assert_eq!(s.current_sample(), 1500);
}
