//! The pulse scheduler and its latency compensation.
use vstd::prelude::*;
use crate::timing::{PPB, is_beat_tick, swing_delay_of, beat_tick, pulse_interval, pulse_interval_of};
use crate::context::{Context, ContextModel, DEFAULT_TEMPO};
use crate::pattern::{PatternModel, lemma_tick_triggers_only_triggers, lemma_choke_effects_only_chokes, tick_triggers, tick_triggered, choke_effects};
use crate::message::{Effect, MIDI_CLOCK};

verus! {

/// Whether pulse `pulse` is a beat tick of the current pattern of `c`.
pub open spec fn is_tick_for(c: ContextModel, pulse: nat) -> bool {
    let step = c.current().division.spec_step() as int;
    is_beat_tick(pulse as int, step, swing_delay_of(c.swing as int, step))
}

/// The state at pulse `pulse` of the bar once the bar boundary has been
/// handled: at pulse 0 a queued pattern becomes current.
pub open spec fn at_boundary(c: ContextModel, pulse: nat) -> ContextModel {
    if pulse == 0 {
        c.switched_to_queued()
    } else {
        c
    }
}

/// The state after a playing pulse `pulse`: the bar boundary is handled,
/// then on a beat tick every playhead of the current pattern moves on.
pub open spec fn ticked(c: ContextModel, pulse: nat) -> ContextModel {
    let s = at_boundary(c, pulse);
    if is_tick_for(s, pulse) {
        s.with_current(s.current().playheads_advanced())
    } else {
        s
    }
}

/// What a playing pulse `pulse` emits: on a beat tick the triggers and
/// chokes of the current pattern, then one MIDI clock when connected.
pub open spec fn tick_effects(c: ContextModel, pulse: nat) -> Seq<Effect> {
    let s = at_boundary(c, pulse);
    (if is_tick_for(s, pulse) {
        s.current().fire_effects()
    } else {
        Seq::empty()
    }) + s.midi_effects(MIDI_CLOCK)
}

/// The state after a pulse while stopped: the playheads of the current
/// pattern go back to the first slot.
pub open spec fn stopped_step(c: ContextModel) -> ContextModel {
    c.with_current(c.current().playheads_reset())
}

/// Every trigger of `e` comes before every choke.
pub open spec fn triggers_before_chokes(e: Seq<Effect>) -> bool {
    forall|i: int, j: int|
        0 <= i < e.len() && 0 <= j < e.len() && (#[trigger] e[i]).is_trigger() && (
        #[trigger] e[j]).is_choke() ==> i < j
}

/// In what a beat tick of `p` emits, followed by effects that are neither
/// triggers nor chokes, every trigger comes before every choke.
pub proof fn lemma_fire_effects_ordered(p: PatternModel, rest: Seq<Effect>)
    requires
        forall|k: int|
            0 <= k < rest.len() ==> !(#[trigger] rest[k]).is_choke() && !rest[k].is_trigger(),
    ensures
        triggers_before_chokes(p.fire_effects() + rest),
{
    let n = p.tracks.len();
    let t = tick_triggers(p.tracks, n);
    let c = choke_effects(p.choke_grps, tick_triggered(p.tracks, n), n);
    lemma_tick_triggers_only_triggers(p.tracks, n);
    lemma_choke_effects_only_chokes(p.choke_grps, tick_triggered(p.tracks, n), n);
    let e = p.fire_effects() + rest;
    assert(p.fire_effects() == t + c);
    assert forall|i: int, j: int|
        0 <= i < e.len() && 0 <= j < e.len() && (#[trigger] e[i]).is_trigger() && (
        #[trigger] e[j]).is_choke() implies i < j by {
        if i >= t.len() {
            if i < t.len() + c.len() {
                assert(e[i] == c[i - t.len()]);
                assert(c[i - t.len()].is_choke());
            } else {
                assert(e[i] == rest[i - t.len() - c.len()]);
            }
        }
        if j < t.len() {
            assert(e[j] == t[j]);
            assert(t[j].is_trigger());
        } else if j >= t.len() + c.len() {
            assert(e[j] == rest[j - t.len() - c.len()]);
        }
    }
}

/// The scheduler's own state: the position in the bar and the latency
/// estimate. Times are in nanoseconds.
pub struct Sequencer {
    /// Running average of the processing time of a pulse.
    pub latency: u64,
    /// Time to sleep after the current pulse.
    pub sleep_interval: u64,
    /// Position in the bar, in pulses.
    pub pulse_idx: u8,
}

impl Sequencer {
    pub open spec fn wf(&self) -> bool {
        self.pulse_idx < PPB
    }

    /// A scheduler at the start of a bar with no latency measured; it sleeps
    /// one pulse of the default tempo until a pulse has been timed.
    pub fn new() -> (r: Sequencer)
        ensures
            r.wf(),
            r.pulse_idx == 0,
            r.latency == 0,
            r.sleep_interval == pulse_interval_of(DEFAULT_TEMPO as int),
    {
        Sequencer { latency: 0, sleep_interval: pulse_interval(DEFAULT_TEMPO), pulse_idx: 0 }
    }

    /// Runs the critical section of one pulse on `ctx` and returns what the
    /// caller must carry out, in order.
    ///
    /// While playing: at the start of the bar a queued pattern becomes
    /// current with its playheads reset; on a beat tick every sounding track
    /// triggers in track order and every playhead moves on, then the tracks
    /// silenced by those triggers are choked; a MIDI clock follows when
    /// connected; the pulse index moves on, wrapping at `PPB`.
    ///
    /// While stopped: the pulse index goes back to 0 and the playheads of
    /// the current pattern are reset.
    pub fn play_next(&mut self, ctx: &mut Context) -> (effects: Vec<Effect>)
        requires
            old(self).wf(),
            old(ctx).wf(),
        ensures
            final(self).wf(),
            final(ctx).wf(),
            final(self).latency == old(self).latency,
            final(self).sleep_interval == old(self).sleep_interval,
            old(ctx).playing ==> {
                &&& final(ctx)@ == ticked(old(ctx)@, old(self).pulse_idx as nat)
                &&& effects@ == tick_effects(old(ctx)@, old(self).pulse_idx as nat)
                &&& final(self).pulse_idx == (old(self).pulse_idx + 1) % (PPB as int)
            },
            !old(ctx).playing ==> {
                &&& final(ctx)@ == stopped_step(old(ctx)@)
                &&& effects@.len() == 0
                &&& final(self).pulse_idx == 0
            },
            triggers_before_chokes(effects@),
    {
        let mut effects: Vec<Effect> = Vec::new();
        if !ctx.playing {
            self.pulse_idx = 0;
            ctx.reset_playheads();
            return effects;
        }
        let pulse = self.pulse_idx;
        if pulse == 0 {
            ctx.switch_to_queued();
        }
        let ghost s = ctx@;
        assert(s == at_boundary(old(ctx)@, pulse as nat));
        let division = ctx.patterns[ctx.pattern_id].division;
        assert(s.current().division == division);
        if beat_tick(pulse, division, ctx.swing) {
            ctx.fire_current(&mut effects);
        }
        if ctx.midi_connected {
            effects.push(Effect::Midi(MIDI_CLOCK));
        }
        self.pulse_idx = (pulse + 1) % PPB;
        proof {
            let fired = if is_tick_for(s, pulse as nat) {
                s.current().fire_effects()
            } else {
                Seq::empty()
            };
            assert(effects@ =~= fired + s.midi_effects(MIDI_CLOCK));
            let rest = s.midi_effects(MIDI_CLOCK);
            if is_tick_for(s, pulse as nat) {
                lemma_fire_effects_ordered(s.current(), rest);
            } else {
                assert forall|i: int, j: int|
                    0 <= i < effects@.len() && 0 <= j < effects@.len() && (
                    #[trigger] effects@[i]).is_trigger() && (#[trigger] effects@[j]).is_choke() implies i
                    < j by {
                    assert(effects@[i] == rest[i]);
                }
            }
        }
        effects
    }

    /// Folds the processing time `elapsed` of the last pulse into the
    /// latency average, `(latency + elapsed) / 2`, and sets the sleep to
    /// `pulse_interval - min(pulse_interval, latency)`.
    pub fn set_latency(&mut self, elapsed: u64, pulse_interval: u64)
        requires
            old(self).wf(),
        ensures
            final(self).wf(),
            final(self).pulse_idx == old(self).pulse_idx,
            final(self).latency == (old(self).latency + elapsed) / 2,
            final(self).sleep_interval == pulse_interval - (if pulse_interval <= final(self).latency {
                pulse_interval
            } else {
                final(self).latency
            }),
    {
        let l = self.latency;
        self.latency = l / 2 + elapsed / 2 + (l % 2 + elapsed % 2) / 2;
        let cap = if pulse_interval <= self.latency {
            pulse_interval
        } else {
            self.latency
        };
        self.sleep_interval = pulse_interval - cap;
    }
}

} // verus!
