//! Laws that relate the engine's operations to one another.
use vstd::prelude::*;
use crate::timing::{PPB, is_beat_tick, swing_delay_of};
use crate::track::{TrackModel, MAX_LEN};
use crate::context::ContextModel;
use crate::message::Command;
use crate::persist::{saved_of, saved_track_of, saved_tracks_of, loaded_into, restored_tracks, restored_track, loadable};
use crate::scheduler::{stopped_step, ticked, at_boundary, is_tick_for, tick_effects, triggers_before_chokes, lemma_fire_effects_ordered};
use crate::message::MIDI_CLOCK;

verus! {

/// The model of a well-formed engine: at least one pattern, both ids in
/// range, every track well formed.
pub open spec fn model_wf(c: ContextModel) -> bool {
    &&& c.patterns.len() >= 1
    &&& c.pattern_id < c.patterns.len()
    &&& c.queued_pattern_id < c.patterns.len()
    &&& forall|i: int| 0 <= i < c.patterns.len() ==> (#[trigger] c.patterns[i]).wf()
}

proof fn lemma_restore_saved(tracks: Seq<TrackModel>, n: nat)
    requires
        n <= tracks.len(),
        forall|i: int| 0 <= i < tracks.len() ==> (#[trigger] tracks[i]).wf(),
    ensures
        restored_tracks(saved_tracks_of(tracks), n).len() == n,
        forall|i: int|
            0 <= i < n ==> #[trigger] restored_tracks(saved_tracks_of(tracks), n)[i] == restored_track(saved_track_of(tracks[i])),
    decreases n,
{
    if n > 0 {
        let ts = saved_tracks_of(tracks);
        lemma_restore_saved(tracks, (n - 1) as nat);
        assert(tracks[n - 1].wf());
        assert(ts[n - 1] == saved_track_of(tracks[n - 1]));
        assert(loadable(ts[n - 1]));
        let prev = restored_tracks(ts, (n - 1) as nat);
        assert forall|i: int| 0 <= i < n implies #[trigger] restored_tracks(ts, n)[i] == restored_track(
            saved_track_of(tracks[i]),
        ) by {
            if i < n - 1 {
                assert(restored_tracks(ts, n)[i] == prev[i]);
            }
        }
    }
}

/// Saving the current pattern and loading what was saved gives back the
/// same slots, sample paths, choke groups and division.
pub proof fn lemma_save_load_round_trip(c: ContextModel)
    requires
        model_wf(c),
    ensures
        saved_of(loaded_into(c.current(), saved_of(c.current()))) == saved_of(c.current()),
{
    let p = c.current();
    assert(p.wf());
    let s = saved_of(p);
    lemma_restore_saved(p.tracks, p.tracks.len());
    let q = loaded_into(p, s);
    assert(q.tracks.len() == p.tracks.len());
    assert(saved_of(q).tracks =~= s.tracks);
}

/// Setting the same tempo twice gives the same pulse interval, and the same
/// state, as setting it once.
pub proof fn lemma_set_tempo_idempotent(c: ContextModel, bpm: u16)
    ensures
        c.after(Command::SetTempo(bpm)).after(Command::SetTempo(bpm)) == c.after(
            Command::SetTempo(bpm),
        ),
        c.after(Command::SetTempo(bpm)).after(Command::SetTempo(bpm)).pulse_interval == c.after(
            Command::SetTempo(bpm),
        ).pulse_interval,
{
}

/// Adding a pattern and then removing the new one restores the list of
/// patterns.
pub proof fn lemma_add_then_remove_restores(c: ContextModel)
    requires
        model_wf(c),
        c.patterns.len() < usize::MAX,
    ensures
        c.after(Command::AddPattern).after(
            Command::RemovePattern(c.patterns.len() as usize),
        ).patterns == c.patterns,
{
    let a = c.after(Command::AddPattern);
    assert(a.patterns == c.patterns.push(c.new_pattern()));
    assert(a.can_remove(c.patterns.len()));
    assert(a.patterns.remove(c.patterns.len() as int) =~= c.patterns);
}

/// Growing a track keeps its slots and pads it with silent ones.
pub proof fn lemma_grow_pads_silence(c: ContextModel, t: usize, len: usize)
    requires
        model_wf(c),
        t < c.current().tracks.len(),
        c.current().tracks[t as int].len() < len <= MAX_LEN,
    ensures
        ({
            let old_t = c.current().tracks[t as int];
            let new_t = c.after(Command::SetTrackLength(t, len)).current().tracks[t as int];
            &&& new_t.len() == len
            &&& forall|i: int| 0 <= i < old_t.len() ==> #[trigger] new_t.slots[i] == old_t.slots[i]
            &&& forall|i: int| old_t.len() <= i < len ==> #[trigger] new_t.slots[i] == 0
            &&& new_t.idx == old_t.idx
        }),
{
    assert(c.current().wf());
    assert(c.current().tracks[t as int].wf());
    let old_t = c.current().tracks[t as int];
    vstd::arithmetic::div_mod::lemma_small_mod(old_t.idx, len as nat);
}

/// Shrinking a track truncates its slots and wraps its playhead.
pub proof fn lemma_shrink_truncates(c: ContextModel, t: usize, len: usize)
    requires
        model_wf(c),
        t < c.current().tracks.len(),
        1 <= len < c.current().tracks[t as int].len(),
    ensures
        ({
            let old_t = c.current().tracks[t as int];
            let new_t = c.after(Command::SetTrackLength(t, len)).current().tracks[t as int];
            &&& new_t.slots == old_t.slots.subrange(0, len as int)
            &&& new_t.idx == old_t.idx % (len as nat)
        }),
{
    assert(c.current().wf());
    assert(c.current().tracks[t as int].wf());
    let old_t = c.current().tracks[t as int];
    let new_t = c.after(Command::SetTrackLength(t, len)).current().tracks[t as int];
    assert(new_t.slots =~= old_t.slots.subrange(0, len as int));
}

/// Selecting a pattern while playing leaves the current pattern playing and
/// queues the selection; the switch happens at the next start of a bar,
/// with the new pattern's playheads reset.
pub proof fn lemma_select_while_playing_defers(c: ContextModel, idx: usize, pulse: nat)
    requires
        model_wf(c),
        c.playing,
        idx < c.patterns.len(),
        pulse < PPB,
    ensures
        c.after(Command::SelectPattern(idx)).pattern_id == c.pattern_id,
        c.after(Command::SelectPattern(idx)).queued_pattern_id == idx,
        pulse != 0 ==> ticked(c.after(Command::SelectPattern(idx)), pulse).pattern_id == c.pattern_id,
        at_boundary(c.after(Command::SelectPattern(idx)), 0).pattern_id == idx,
        idx != c.pattern_id ==> forall|i: int|
            0 <= i < c.patterns[idx as int].tracks.len() ==> (#[trigger] at_boundary(
                c.after(Command::SelectPattern(idx)),
                0,
            ).current().tracks[i]).idx == 0,
{
}

/// Selecting a pattern while stopped switches to it at once with every
/// playhead on the first slot.
pub proof fn lemma_select_while_stopped_switches(c: ContextModel, idx: usize)
    requires
        model_wf(c),
        !c.playing,
        idx < c.patterns.len(),
    ensures
        c.after(Command::SelectPattern(idx)).pattern_id == idx,
        c.after(Command::SelectPattern(idx)).queued_pattern_id == idx,
        forall|i: int|
            0 <= i < c.patterns[idx as int].tracks.len() ==> (#[trigger] c.after(
                Command::SelectPattern(idx),
            ).current().tracks[i]).idx == 0,
{
}

/// A pulse while stopped puts every playhead of the current pattern on its
/// first slot and keeps the current pattern.
pub proof fn lemma_stopped_pulse_resets_playheads(c: ContextModel)
    requires
        model_wf(c),
    ensures
        stopped_step(c).pattern_id == c.pattern_id,
        stopped_step(c).current().tracks.len() == c.current().tracks.len(),
        forall|i: int|
            0 <= i < c.current().tracks.len() ==> (#[trigger] stopped_step(
                c,
            ).current().tracks[i]).idx == 0,
{
}

/// In what a playing pulse emits, every trigger comes before every choke:
/// tracks of one choke group that fire on the same tick are all enqueued
/// before any of them is silenced.
pub proof fn lemma_tick_triggers_before_chokes(c: ContextModel, pulse: nat)
    ensures
        triggers_before_chokes(tick_effects(c, pulse)),
{
    let s = at_boundary(c, pulse);
    let rest = s.midi_effects(MIDI_CLOCK);
    assert forall|k: int| 0 <= k < rest.len() implies !(#[trigger] rest[k]).is_choke()
        && !rest[k].is_trigger() by {
        assert(rest[k] == crate::message::Effect::Midi(MIDI_CLOCK));
    }
    if is_tick_for(s, pulse) {
        lemma_fire_effects_ordered(s.current(), rest);
    } else {
        let e = tick_effects(c, pulse);
        assert(e =~= rest);
    }
}

/// Without swing, pulse `pulse` is a beat tick exactly when it is a
/// multiple of the beat step, `PPB / division`.
pub proof fn lemma_no_swing_ticks_on_multiples(pulse: nat, step: nat)
    requires
        step > 0,
    ensures
        is_beat_tick(pulse as int, step as int, swing_delay_of(0, step as int)) <==> pulse % step
            == 0,
{
}

/// The latency average under processing times that alternate between `a`
/// and 0: from latency `l`, one step with `a` gives `l1` and one with 0
/// gives `l2`. The distance `3 * l2 - a` to the two-step fixed point is at
/// most a quarter of `3 * l - a`, up to rounding, so the average converges;
/// and over the two steps the latencies add up to three quarters of
/// `l + a`, so near the fixed point `l = a / 3` their mean is `a / 2`.
pub proof fn lemma_latency_alternating(l: nat, a: nat)
    ensures
        ({
            let l1 = (l + a) / 2;
            let l2 = (l1 + 0) / 2;
            &&& 3 * l - a - 9 <= 4 * (3 * l2 - a) <= 3 * l - a
            &&& 3 * (l + a) - 5 <= 4 * (l1 + l2) <= 3 * (l + a)
        }),
{
}

} // verus!
