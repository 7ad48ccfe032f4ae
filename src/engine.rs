//! The synthesizer engine: a registry of sounding notes indexed by note number,
//! a sample clock, and the per-sample step that advances every envelope.
use vstd::prelude::*;

use crate::envelope::{NoteEnvelope, NoteState, UNITY, step_size, fresh_state, step_for};
use crate::note::{Note, NOTE_COUNT};

verus! {

/// Failure of a registry operation.
#[derive(Clone, Copy, Debug, PartialEq, Eq, Structural)]
pub enum SynthError {
    /// The note number is outside the frequency table (`0..NOTE_COUNT`).
    NoteOutOfRange,
}

/// A note's contribution to one sample: its identity and its envelope intensity
/// (in units of `1 / UNITY`) for that sample.
#[derive(Clone, Copy, Debug, PartialEq, Eq, Structural)]
pub struct Voice {
    pub note: Note,
    pub intensity: i64,
}

/// Everything needed to render one output sample: the sample's clock index and
/// the notes that sound in it. The sample is the sum over `voices` of
/// `volume * intensity / UNITY * sin(2 pi * sample_index / sample_rate * freq(note))`.
pub struct Frame {
    pub sample_index: u64,
    pub voices: Vec<Voice>,
}

/// The registry slot of one note after one sample: the note's envelope advances,
/// and a note that finished its release leaves the registry.
pub open spec fn slot_after(o: Option<NoteState>, up: int, down: int) -> Option<NoteState> {
    match o {
        Some(s) => if s.stepped(up, down).finished() {
            None
        } else {
            Some(s.stepped(up, down))
        },
        None => None,
    }
}

/// The registry after one sample.
pub open spec fn ticked(reg: Seq<Option<NoteState>>, up: int, down: int) -> Seq<Option<NoteState>> {
    Seq::new(reg.len(), |i: int| slot_after(reg[i], up, down))
}

/// The voices of one sample from the first `n` slots of the registry, in note order:
/// every registered note, with its envelope advanced by that sample (a note that
/// finishes in this sample still sounds in it).
pub open spec fn voices_upto(reg: Seq<Option<NoteState>>, n: nat, up: int, down: int) -> Seq<Voice>
    decreases n,
{
    if n == 0 {
        Seq::empty()
    } else {
        let prev = voices_upto(reg, (n - 1) as nat, up, down);
        match reg[n - 1] {
            Some(s) => prev.push(
                Voice { note: Note { midi_id: (n - 1) as u8 }, intensity: s.stepped(up, down).intensity },
            ),
            None => prev,
        }
    }
}

/// The voices of one sample from the whole registry.
pub open spec fn voices_of(reg: Seq<Option<NoteState>>, up: int, down: int) -> Seq<Voice> {
    voices_upto(reg, reg.len(), up, down)
}

/// Every registered note keeps the envelope bounds.
pub open spec fn registry_ok(reg: Seq<Option<NoteState>>) -> bool {
    &&& reg.len() == NOTE_COUNT
    &&& forall|i: int| 0 <= i < reg.len() ==> match #[trigger] reg[i] {
        Some(s) => s.inv(),
        None => true,
    }
}

/// The sample clock after `i`: it counts up and wraps at the width of `u64`.
pub open spec fn next_index(i: u64) -> u64 {
    if i == u64::MAX {
        0
    } else {
        (i + 1) as u64
    }
}

/// The synthesizer engine.
pub struct Synthesizer {
    sample_rate: u32,
    channel_count: u8,
    attack_us: u64,
    release_us: u64,
    curr_sample: u64,
    active_notes: Vec<Option<NoteState>>,
}

impl Synthesizer {
    /// Output samples per second.
    pub closed spec fn rate(&self) -> u32 {
        self.sample_rate
    }

    /// Output channels (informational: the engine generates one signal).
    pub closed spec fn channels(&self) -> u8 {
        self.channel_count
    }

    /// Attack time in microseconds.
    pub closed spec fn attack_time(&self) -> u64 {
        self.attack_us
    }

    /// Release time in microseconds.
    pub closed spec fn release_time(&self) -> u64 {
        self.release_us
    }

    /// Index of the next sample to be produced.
    pub closed spec fn clock(&self) -> u64 {
        self.curr_sample
    }

    /// The note registry: slot `i` holds the state of note `i` while it sounds.
    pub closed spec fn registry(&self) -> Seq<Option<NoteState>> {
        self.active_notes@
    }

    /// Intensity gained per sample during attack.
    pub open spec fn attack_step(&self) -> int {
        step_size(self.rate() as int, self.attack_time() as int)
    }

    /// Intensity lost per sample during release.
    pub open spec fn release_step(&self) -> int {
        step_size(self.rate() as int, self.release_time() as int)
    }

    /// Well-formedness: positive parameters and a registry within bounds.
    pub open spec fn wf(&self) -> bool {
        &&& self.rate() > 0
        &&& self.channels() > 0
        &&& self.attack_time() > 0
        &&& self.release_time() > 0
        &&& registry_ok(self.registry())
    }

    /// The parameters stay as they were.
    pub open spec fn same_params(&self, other: &Synthesizer) -> bool {
        &&& self.rate() == other.rate()
        &&& self.channels() == other.channels()
        &&& self.attack_time() == other.attack_time()
        &&& self.release_time() == other.release_time()
    }

    /// An engine at 44100 samples per second, two channels, 2 ms attack and
    /// 200 ms release, with no notes and the clock at zero.
    pub fn new() -> (r: Synthesizer)
        ensures
            r.wf(),
            r.rate() == 44100,
            r.channels() == 2,
            r.attack_time() == 2000,
            r.release_time() == 200_000,
            r.clock() == 0,
            r.registry() == Seq::new(NOTE_COUNT as nat, |i: int| None::<NoteState>),
    {
        Synthesizer::with_params(44100, 2, 2000, 200_000)
    }

    /// An engine with the given sample rate, channel count, and attack and release
    /// times in microseconds, with no notes and the clock at zero.
    pub fn with_params(sample_rate: u32, channel_count: u8, attack_us: u64, release_us: u64) -> (r:
        Synthesizer)
        requires
            sample_rate > 0,
            channel_count > 0,
            attack_us > 0,
            release_us > 0,
        ensures
            r.wf(),
            r.rate() == sample_rate,
            r.channels() == channel_count,
            r.attack_time() == attack_us,
            r.release_time() == release_us,
            r.clock() == 0,
            r.registry() == Seq::new(NOTE_COUNT as nat, |i: int| None::<NoteState>),
    {
        let mut active_notes: Vec<Option<NoteState>> = Vec::new();
        let mut i: u8 = 0;
        while i < NOTE_COUNT
            invariant
                i <= NOTE_COUNT,
                active_notes@ == Seq::new(i as nat, |j: int| None::<NoteState>),
            decreases NOTE_COUNT - i,
        {
            active_notes.push(None);
            i = i + 1;
        }
        let r = Synthesizer {
            sample_rate,
            channel_count,
            attack_us,
            release_us,
            curr_sample: 0,
            active_notes,
        };
        assert(r.registry() =~= Seq::new(NOTE_COUNT as nat, |i: int| None::<NoteState>));
        r
    }

    /// Output samples per second.
    pub fn sample_rate(&self) -> (r: u32)
        ensures
            r == self.rate(),
    {
        self.sample_rate
    }

    /// Output channels.
    pub fn channel_count(&self) -> (r: u8)
        ensures
            r == self.channels(),
    {
        self.channel_count
    }

    /// Index of the next sample to be produced.
    pub fn current_sample(&self) -> (r: u64)
        ensures
            r == self.clock(),
    {
        self.curr_sample
    }

    /// The envelope state of `note`, if it is registered.
    pub fn note_state(&self, note: Note) -> (r: Option<NoteState>)
        requires
            self.wf(),
        ensures
            r == (if note.midi_id < NOTE_COUNT {
                self.registry()[note.midi_id as int]
            } else {
                None
            }),
    {
        if note.midi_id < NOTE_COUNT {
            self.active_notes[note.midi_id as usize]
        } else {
            None
        }
    }

    /// Starts `note` from silence at the beginning of its attack, replacing any
    /// state it had. A note outside `0..NOTE_COUNT` is refused and nothing changes.
    pub fn play_note(&mut self, note: Note) -> (r: Result<(), SynthError>)
        requires
            old(self).wf(),
        ensures
            final(self).wf(),
            final(self).same_params(old(self)),
            final(self).clock() == old(self).clock(),
            r is Ok <==> note.midi_id < NOTE_COUNT,
            r is Ok ==> final(self).registry() == old(self).registry().update(
                note.midi_id as int,
                Some(fresh_state()),
            ),
            r is Err ==> r == Err::<(), SynthError>(SynthError::NoteOutOfRange) && final(self).registry()
                == old(self).registry(),
    {
        if note.midi_id < NOTE_COUNT {
            self.active_notes.set(note.midi_id as usize, Some(NoteState { intensity: 0, envelope: NoteEnvelope::Attack }));
            Ok(())
        } else {
            Err(SynthError::NoteOutOfRange)
        }
    }

    /// Puts a registered `note` into its release, keeping its intensity. Stopping a
    /// note that is not registered changes nothing.
    pub fn stop_note(&mut self, note: Note)
        requires
            old(self).wf(),
        ensures
            final(self).wf(),
            final(self).same_params(old(self)),
            final(self).clock() == old(self).clock(),
            final(self).registry() == (if note.midi_id < NOTE_COUNT {
                match old(self).registry()[note.midi_id as int] {
                    Some(s) => old(self).registry().update(
                        note.midi_id as int,
                        Some(NoteState { intensity: s.intensity, envelope: NoteEnvelope::Release }),
                    ),
                    None => old(self).registry(),
                }
            } else {
                old(self).registry()
            }),
    {
        if note.midi_id < NOTE_COUNT {
            let k = note.midi_id as usize;
            match self.active_notes[k] {
                Some(s) => {
                    self.active_notes.set(k, Some(NoteState { intensity: s.intensity, envelope: NoteEnvelope::Release }));
                },
                None => {},
            }
        }
    }

    /// Produces the next sample: reads the clock and advances it, steps every
    /// registered note's envelope, and removes the notes that finished their release.
    /// Returns the sample's clock index and its voices.
    pub fn next_frame(&mut self) -> (frame: Frame)
        requires
            old(self).wf(),
        ensures
            final(self).wf(),
            final(self).same_params(old(self)),
            frame.sample_index == old(self).clock(),
            final(self).clock() == next_index(old(self).clock()),
            final(self).registry() == ticked(old(self).registry(), old(self).attack_step(), old(self).release_step()),
            frame.voices@ == voices_of(old(self).registry(), old(self).attack_step(), old(self).release_step()),
    {
        let up = step_for(self.sample_rate, self.attack_us);
        let down = step_for(self.sample_rate, self.release_us);
        let sample_index = self.curr_sample;
        self.curr_sample = if self.curr_sample == u64::MAX {
            0
        } else {
            self.curr_sample + 1
        };
        let ghost reg0 = self.active_notes@;
        let mut voices: Vec<Voice> = Vec::new();
        let mut i: usize = 0;
        while i < self.active_notes.len()
            invariant
                self.sample_rate == old(self).sample_rate,
                self.channel_count == old(self).channel_count,
                self.attack_us == old(self).attack_us,
                self.release_us == old(self).release_us,
                self.curr_sample == next_index(old(self).curr_sample),
                self.active_notes@.len() == reg0.len(),
                reg0.len() == NOTE_COUNT,
                registry_ok(reg0),
                0 < up <= UNITY,
                0 < down <= UNITY,
                i <= reg0.len(),
                forall|j: int| 0 <= j < i ==> #[trigger] self.active_notes@[j] == slot_after(reg0[j], up as int, down as int),
                forall|j: int| i <= j < reg0.len() ==> #[trigger] self.active_notes@[j] == reg0[j],
                voices@ == voices_upto(reg0, i as nat, up as int, down as int),
            decreases reg0.len() - i,
        {
            match self.active_notes[i] {
                Some(s) => {
                    assert(s.inv()) by {
                        assert(reg0[i as int] == Some(s));
                    }
                    let t = s.step(up, down);
                    voices.push(Voice { note: Note { midi_id: i as u8 }, intensity: t.intensity });
                    let finished = match t.envelope {
                        NoteEnvelope::Release => t.intensity <= 0,
                        _ => false,
                    };
                    if finished {
                        self.active_notes.set(i, None);
                    } else {
                        self.active_notes.set(i, Some(t));
                    }
                },
                None => {},
            }
            i = i + 1;
        }
        proof {
            assert(self.active_notes@ =~= ticked(reg0, up as int, down as int));
            assert forall|j: int| 0 <= j < self.active_notes@.len() implies match #[trigger] self.active_notes@[j] {
                Some(s) => s.inv(),
                None => true,
            } by {
                assert(self.active_notes@[j] == slot_after(reg0[j], up as int, down as int));
                match reg0[j] {
                    Some(s0) => {
                        assert(s0.inv());
                    },
                    None => {},
                }
            }
        }
        Frame { sample_index, voices }
    }
}

} // verus!
