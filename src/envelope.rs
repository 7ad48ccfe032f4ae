//! Per-note envelope: the attack / sustain / release state machine and its
//! per-sample recurrence, in exact fixed-point arithmetic.
use vstd::prelude::*;

verus! {

/// Intensity `1.0` in fixed point: an intensity of `UNITY` is full level.
pub const UNITY: i64 = 1_000_000_000;

/// Microseconds in one second.
pub const MICROS_PER_SECOND: u64 = 1_000_000;

/// Phase of a note's envelope.
#[derive(Clone, Copy, Debug, PartialEq, Eq, Structural)]
pub enum NoteEnvelope {
    Attack,
    Sustain,
    Release,
}

/// The envelope state of one registered note.
#[derive(Clone, Copy, Debug, PartialEq, Eq, Structural)]
pub struct NoteState {
    /// Current level in units of `1 / UNITY`; release may take it to zero or below.
    pub intensity: i64,
    pub envelope: NoteEnvelope,
}

/// Change of intensity per sample for a segment lasting `time_us` microseconds at
/// `rate` samples per second: `UNITY / (rate * time)`, rounded up so that every
/// sample makes progress, and never more than `UNITY`.
pub open spec fn step_size(rate: int, time_us: int) -> int {
    let c = (UNITY * MICROS_PER_SECOND + rate * time_us - 1) / (rate * time_us);
    if c >= UNITY {
        UNITY as int
    } else {
        c
    }
}

/// A freshly played note: silent, at the start of its attack.
pub open spec fn fresh_state() -> NoteState {
    NoteState { intensity: 0, envelope: NoteEnvelope::Attack }
}

impl NoteState {
    /// The bounds that every registered note keeps between samples.
    pub open spec fn inv(self) -> bool {
        &&& 0 <= self.intensity <= 2 * UNITY
        &&& self.envelope == NoteEnvelope::Attack ==> self.intensity < UNITY
    }

    /// The state after one sample, with attack step `up` and release step `down`.
    pub open spec fn stepped(self, up: int, down: int) -> NoteState {
        match self.envelope {
            NoteEnvelope::Attack => {
                let i = self.intensity + up;
                NoteState {
                    intensity: i as i64,
                    envelope: if i >= UNITY {
                        NoteEnvelope::Sustain
                    } else {
                        NoteEnvelope::Attack
                    },
                }
            },
            NoteEnvelope::Release => NoteState {
                intensity: (self.intensity - down) as i64,
                envelope: NoteEnvelope::Release,
            },
            NoteEnvelope::Sustain => self,
        }
    }

    /// A released note whose intensity has fallen to zero or below is finished.
    pub open spec fn finished(self) -> bool {
        self.envelope == NoteEnvelope::Release && self.intensity <= 0
    }

    /// Advances the envelope by one sample.
    pub fn step(self, up: i64, down: i64) -> (r: NoteState)
        requires
            self.inv(),
            0 < up <= UNITY,
            0 < down <= UNITY,
        ensures
            r == self.stepped(up as int, down as int),
            r.finished() || r.inv(),
    {
        match self.envelope {
            NoteEnvelope::Attack => {
                let i = self.intensity + up;
                if i >= UNITY {
                    NoteState { intensity: i, envelope: NoteEnvelope::Sustain }
                } else {
                    NoteState { intensity: i, envelope: NoteEnvelope::Attack }
                }
            },
            NoteEnvelope::Release => NoteState {
                intensity: self.intensity - down,
                envelope: NoteEnvelope::Release,
            },
            NoteEnvelope::Sustain => self,
        }
    }
}

/// Per-sample step for a segment of `time_us` microseconds at `rate` samples per second.
pub fn step_for(rate: u32, time_us: u64) -> (r: i64)
    requires
        rate > 0,
        time_us > 0,
    ensures
        r == step_size(rate as int, time_us as int),
        0 < r <= UNITY,
{
    let num: u128 = 1_000_000_000_000_000;
    assert((rate as u128) * (time_us as u128) <= 0xffff_ffffu128 * 0xffff_ffff_ffff_ffffu128)
        by (nonlinear_arith)
        requires
            rate <= 0xffff_ffffu32,
            time_us <= 0xffff_ffff_ffff_ffffu64,
    ;
    let den: u128 = (rate as u128) * (time_us as u128);
    assert(den >= 1) by (nonlinear_arith)
        requires
            rate > 0,
            time_us > 0,
            den == rate * time_us,
    ;
    let c: u128 = (num + den - 1) / den;
    assert(c >= 1) by (nonlinear_arith)
        requires
            den >= 1,
            num >= 1,
            c == (num + den - 1) as int / den as int,
    ;
    if c >= UNITY as u128 {
        UNITY
    } else {
        c as i64
    }
}

} // verus!
