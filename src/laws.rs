//! Laws of the engine: silence, attack and release progress, pruning, and the
//! independence of notes from one another.
use vstd::multiset::Multiset;
use vstd::prelude::*;

use crate::engine::{slot_after, ticked, voices_upto, voices_of, Voice};
use crate::envelope::{NoteEnvelope, NoteState, UNITY, fresh_state};

verus! {

/// The state of one registry slot after `n` samples with no events in between.
pub open spec fn after_samples(o: Option<NoteState>, n: nat, up: int, down: int) -> Option<NoteState>
    decreases n,
{
    if n == 0 {
        o
    } else {
        slot_after(after_samples(o, (n - 1) as nat, up, down), up, down)
    }
}

/// `r` holds every note of `r1` and of `r2`, and no note is in both.
pub open spec fn disjoint_union(
    r: Seq<Option<NoteState>>,
    r1: Seq<Option<NoteState>>,
    r2: Seq<Option<NoteState>>,
) -> bool {
    &&& r.len() == r1.len() == r2.len()
    &&& forall|i: int|
        0 <= i < r.len() ==> (#[trigger] r1[i] is None || r2[i] is None) && r[i] == (if r1[i] is Some {
            r1[i]
        } else {
            r2[i]
        })
}

/// An engine with no notes stays silent: a sample has no voices and leaves the
/// registry empty.
pub proof fn lemma_silence(reg: Seq<Option<NoteState>>, up: int, down: int)
    requires
        forall|i: int| 0 <= i < reg.len() ==> #[trigger] reg[i] is None,
    ensures
        voices_of(reg, up, down) == Seq::<Voice>::empty(),
        ticked(reg, up, down) == reg,
{
    lemma_no_voices(reg, reg.len(), up, down);
    assert(ticked(reg, up, down) =~= reg);
}

proof fn lemma_no_voices(reg: Seq<Option<NoteState>>, n: nat, up: int, down: int)
    requires
        n <= reg.len(),
        forall|i: int| 0 <= i < reg.len() ==> #[trigger] reg[i] is None,
    ensures
        voices_upto(reg, n, up, down) == Seq::<Voice>::empty(),
    decreases n,
{
    if n > 0 {
        lemma_no_voices(reg, (n - 1) as nat, up, down);
        assert(reg[n - 1] is None);
    }
}

/// During attack every sample raises the intensity by the attack step; the note
/// turns to sustain exactly when it reaches full level, and a sustained note stays
/// as it is.
pub proof fn lemma_attack_step(s: NoteState, up: int, down: int)
    requires
        s.inv(),
        0 < up <= UNITY,
    ensures
        s.envelope == NoteEnvelope::Attack ==> {
            &&& s.stepped(up, down).intensity == s.intensity + up
            &&& s.stepped(up, down).intensity > s.intensity
            &&& (s.stepped(up, down).envelope == NoteEnvelope::Sustain <==> s.intensity + up >= UNITY)
        },
        s.envelope == NoteEnvelope::Sustain ==> s.stepped(up, down) == s,
{
}

/// A freshly played note, left alone, climbs by the attack step each sample while
/// below full level; from the sample on which it reaches full level it is held in
/// sustain at a constant level.
pub proof fn lemma_attack_progress(n: nat, up: int, down: int)
    requires
        0 < up <= UNITY,
        0 < down <= UNITY,
    ensures
        n * up < UNITY ==> after_samples(Some(fresh_state()), n, up, down) == Some(
            NoteState { intensity: (n * up) as i64, envelope: NoteEnvelope::Attack },
        ),
        n * up >= UNITY ==> {
            &&& after_samples(Some(fresh_state()), n, up, down) matches Some(s)
            &&& s.envelope == NoteEnvelope::Sustain
            &&& UNITY <= s.intensity < 2 * UNITY
            &&& after_samples(Some(fresh_state()), n + 1, up, down) == after_samples(
                Some(fresh_state()),
                n,
                up,
                down,
            )
        },
    decreases n,
{
    let f = Some(fresh_state());
    if n == 0 {
        assert(n * up == 0) by (nonlinear_arith)
            requires
                n == 0,
        ;
        assert(after_samples(f, 0, up, down) == f);
    } else {
        let m = (n - 1) as nat;
        lemma_attack_progress(m, up, down);
        assert(n * up == m * up + up) by (nonlinear_arith)
            requires
                n == m + 1,
        ;
        assert(m * up >= 0) by (nonlinear_arith)
            requires
                up > 0,
        ;
        assert(after_samples(f, n, up, down) == slot_after(after_samples(f, m, up, down), up, down));
        assert(after_samples(f, n + 1, up, down) == slot_after(after_samples(f, n, up, down), up, down));
        if m * up < UNITY {
            let s = NoteState { intensity: (m * up) as i64, envelope: NoteEnvelope::Attack };
            assert(after_samples(f, m, up, down) == Some(s));
            let t = s.stepped(up, down);
            assert(t.intensity == n * up);
            assert(!t.finished());
            assert(after_samples(f, n, up, down) == Some(t));
            if n * up >= UNITY {
                assert(t.envelope == NoteEnvelope::Sustain);
                assert(t.stepped(up, down) == t);
            }
        } else {
            assert(after_samples(f, n, up, down) == after_samples(f, m, up, down));
        }
    }
}

/// During release every sample lowers the intensity by the release step.
pub proof fn lemma_release_step(s: NoteState, up: int, down: int)
    requires
        s.inv(),
        s.envelope == NoteEnvelope::Release,
        0 < down <= UNITY,
    ensures
        s.stepped(up, down).intensity == s.intensity - down,
        s.stepped(up, down).intensity < s.intensity,
        s.stepped(up, down).envelope == NoteEnvelope::Release,
{
}

/// A released note, left alone, loses the release step each sample while its
/// intensity stays above zero; on the sample that takes it to zero or below it
/// leaves the registry, and it does not come back.
pub proof fn lemma_release_progress(s: NoteState, n: nat, up: int, down: int)
    requires
        s.inv(),
        s.envelope == NoteEnvelope::Release,
        0 < up <= UNITY,
        0 < down <= UNITY,
    ensures
        s.intensity - n * down > 0 ==> after_samples(Some(s), n, up, down) == Some(
            NoteState { intensity: (s.intensity - n * down) as i64, envelope: NoteEnvelope::Release },
        ),
        n > 0 && s.intensity - n * down <= 0 ==> after_samples(Some(s), n, up, down) is None,
    decreases n,
{
    if n > 0 {
        let m = (n - 1) as nat;
        lemma_release_progress(s, m, up, down);
        assert(n * down == m * down + down) by (nonlinear_arith)
            requires
                n == m + 1,
        ;
        assert(m * down >= 0) by (nonlinear_arith)
            requires
                down > 0,
        ;
        assert(after_samples(Some(s), n, up, down) == slot_after(after_samples(Some(s), m, up, down), up, down));
        if s.intensity - m * down > 0 {
            let p = NoteState { intensity: (s.intensity - m * down) as i64, envelope: NoteEnvelope::Release };
            assert(after_samples(Some(s), m, up, down) == Some(p));
            assert(p.stepped(up, down).intensity == s.intensity - n * down);
        } else {
            if m == 0 {
                assert(m * down == 0) by (nonlinear_arith)
                    requires
                        m == 0,
                ;
                assert(after_samples(Some(s), m, up, down) == Some(s));
                assert(s.stepped(up, down).finished());
            } else {
                assert(after_samples(Some(s), m, up, down) is None);
            }
        }
    } else {
        assert(n * down == 0) by (nonlinear_arith)
            requires
                n == 0,
        ;
        assert(after_samples(Some(s), 0, up, down) == Some(s));
    }
}

/// A sample removes every note that finishes its release in it: no finished note
/// is left in the registry, and an empty slot stays empty.
pub proof fn lemma_pruning(reg: Seq<Option<NoteState>>, up: int, down: int)
    ensures
        forall|i: int|
            0 <= i < reg.len() ==> match #[trigger] ticked(reg, up, down)[i] {
                Some(s) => !s.finished(),
                None => true,
            },
        forall|i: int|
            0 <= i < reg.len() && reg[i] is None ==> #[trigger] ticked(reg, up, down)[i] is None,
        forall|i: int|
            0 <= i < reg.len() && (reg[i] matches Some(s) && s.stepped(up, down).finished()) ==> #[trigger] ticked(
                reg,
                up,
                down,
            )[i] is None,
{
}

/// Notes do not interact: when a registry is the disjoint union of two others,
/// a sample's voices are those of the two parts together, and the registry after
/// it is the disjoint union of the two parts after it.
pub proof fn lemma_independence(
    r: Seq<Option<NoteState>>,
    r1: Seq<Option<NoteState>>,
    r2: Seq<Option<NoteState>>,
    up: int,
    down: int,
)
    requires
        disjoint_union(r, r1, r2),
    ensures
        voices_of(r, up, down).to_multiset() == voices_of(r1, up, down).to_multiset().add(
            voices_of(r2, up, down).to_multiset(),
        ),
        disjoint_union(ticked(r, up, down), ticked(r1, up, down), ticked(r2, up, down)),
{
    lemma_voices_union(r, r1, r2, r.len(), up, down);
    let t = ticked(r, up, down);
    let t1 = ticked(r1, up, down);
    let t2 = ticked(r2, up, down);
    assert forall|i: int| 0 <= i < t.len() implies (#[trigger] t1[i] is None || t2[i] is None) && t[i] == (
    if t1[i] is Some {
        t1[i]
    } else {
        t2[i]
    }) by {
        assert(r1[i] is None || r2[i] is None);
    }
}

proof fn lemma_voices_union(
    r: Seq<Option<NoteState>>,
    r1: Seq<Option<NoteState>>,
    r2: Seq<Option<NoteState>>,
    n: nat,
    up: int,
    down: int,
)
    requires
        disjoint_union(r, r1, r2),
        n <= r.len(),
    ensures
        voices_upto(r, n, up, down).to_multiset() == voices_upto(r1, n, up, down).to_multiset().add(
            voices_upto(r2, n, up, down).to_multiset(),
        ),
    decreases n,
{
    broadcast use vstd::seq_lib::group_to_multiset_ensures;
    if n == 0 {
        assert(voices_upto(r, 0, up, down).to_multiset() =~= Multiset::empty());
        assert(voices_upto(r1, 0, up, down).to_multiset() =~= Multiset::empty());
        assert(voices_upto(r2, 0, up, down).to_multiset() =~= Multiset::empty());
    } else {
        let m = (n - 1) as nat;
        lemma_voices_union(r, r1, r2, m, up, down);
        assert(r1[m as int] is None || r2[m as int] is None);
        assert(voices_upto(r, n, up, down).to_multiset() =~= voices_upto(r1, n, up, down).to_multiset().add(
            voices_upto(r2, n, up, down).to_multiset(),
        ));
    }
}

/// Playing two different notes gives the same registry in either order, and
/// starting them on a silent engine gives the disjoint union of starting each
/// alone, so that `lemma_independence` applies to the two.
pub proof fn lemma_play_two(reg: Seq<Option<NoteState>>, a: int, b: int)
    requires
        0 <= a < reg.len(),
        0 <= b < reg.len(),
        a != b,
    ensures
        reg.update(a, Some(fresh_state())).update(b, Some(fresh_state())) == reg.update(
            b,
            Some(fresh_state()),
        ).update(a, Some(fresh_state())),
        (forall|i: int| 0 <= i < reg.len() ==> #[trigger] reg[i] is None) ==> disjoint_union(
            reg.update(a, Some(fresh_state())).update(b, Some(fresh_state())),
            reg.update(a, Some(fresh_state())),
            reg.update(b, Some(fresh_state())),
        ),
{
    assert(reg.update(a, Some(fresh_state())).update(b, Some(fresh_state())) =~= reg.update(
        b,
        Some(fresh_state()),
    ).update(a, Some(fresh_state())));
}

} // verus!
