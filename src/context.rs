//! The authoritative engine state and the commands that change it.
use vstd::prelude::*;
use vstd::string::*;
use crate::timing::{Division, valid_tempo, pulse_interval_of, pulse_interval, MIN_TEMPO, MAX_TEMPO, MAX_SWING, MAX_VELOCITY};
use crate::track::{TrackModel, MAX_LEN, zeros, resized, track_name_of};
use crate::pattern::{Pattern, PatternModel, choke_effects};
use crate::message::{Command, Effect, FileType, MIDI_START, MIDI_STOP};

verus! {

/// Track length given to new tracks by default.
pub const DEFAULT_TRACK_LEN: usize = 8;

/// Tempo of a fresh engine.
pub const DEFAULT_TEMPO: u16 = 120;

/// Decimal digits of `n`.
pub open spec fn decimal(n: nat) -> Seq<char>
    decreases n,
{
    if n < 10 {
        "0123456789"@.subrange(n as int, n + 1 as int)
    } else {
        decimal(n / 10) + "0123456789"@.subrange((n % 10) as int, (n % 10) + 1 as int)
    }
}

/// Appends the decimal digits of `n` to `s`.
pub fn append_decimal(s: &mut String, n: usize)
    ensures
        final(s)@ == old(s)@ + decimal(n as nat),
    decreases n,
{
    let digits = "0123456789";
    proof {
        reveal_strlit("0123456789");
    }
    if n >= 10 {
        append_decimal(s, n / 10);
    }
    let d = n % 10;
    s.append(digits.substring_char(d, d + 1));
    proof {
        if n >= 10 {
            assert(old(s)@ + decimal((n / 10) as nat) + digits@.subrange(d as int, d + 1) =~= old(s)@
                + decimal(n as nat));
        }
    }
}

/// Name of the pattern stored at index `n`: `Pattern <n + 1>`.
pub open spec fn pattern_name_of(n: nat) -> Seq<char> {
    "Pattern "@ + decimal(n + 1)
}

/// Name of the pattern stored at index `n`.
pub fn pattern_name(n: usize) -> (r: String)
    requires
        n < usize::MAX,
    ensures
        r@ == pattern_name_of(n as nat),
{
    let mut s = String::from_str("Pattern ");
    append_decimal(&mut s, n + 1);
    s
}

/// Pattern id `id` once the pattern at `removed` is gone and `new_len`
/// patterns remain: ids above shift down, and an id past the end moves to
/// the last pattern.
pub open spec fn id_after_removal(id: nat, removed: nat, new_len: nat) -> nat {
    if id > removed {
        (id - 1) as nat
    } else if id >= new_len {
        (new_len - 1) as nat
    } else {
        id
    }
}

/// What the engine state is, as mathematics. Times are in nanoseconds.
pub struct ContextModel {
    pub patterns: Seq<PatternModel>,
    pub pattern_id: nat,
    pub queued_pattern_id: nat,
    pub default_len: nat,
    pub tempo: nat,
    pub pulse_interval: nat,
    pub playing: bool,
    pub swing: nat,
    pub midi_connected: bool,
    pub saved_patterns: Seq<Seq<char>>,
    pub sample_files: Seq<Seq<char>>,
}

impl ContextModel {
    /// The pattern being played.
    pub open spec fn current(self) -> PatternModel {
        self.patterns[self.pattern_id as int]
    }

    /// The state with the current pattern replaced by `p`.
    pub open spec fn with_current(self, p: PatternModel) -> ContextModel {
        ContextModel { patterns: self.patterns.update(self.pattern_id as int, p), ..self }
    }

    /// The state at tempo `bpm`, with the pulse interval that follows.
    pub open spec fn with_tempo(self, bpm: nat) -> ContextModel {
        ContextModel { tempo: bpm, pulse_interval: pulse_interval_of(bpm as int) as nat, ..self }
    }

    /// The MIDI byte `byte` if a connection is present, else nothing.
    pub open spec fn midi_effects(self, byte: u8) -> Seq<Effect> {
        if self.midi_connected {
            seq![Effect::Midi(byte)]
        } else {
            Seq::empty()
        }
    }

    /// The state after selecting pattern `idx`: queued while playing, else
    /// switched to at once with its playheads reset.
    pub open spec fn selected(self, idx: nat) -> ContextModel {
        if self.playing {
            ContextModel { queued_pattern_id: idx, ..self }
        } else {
            ContextModel {
                patterns: self.patterns.update(idx as int, self.patterns[idx as int].playheads_reset()),
                pattern_id: idx,
                queued_pattern_id: idx,
                ..self
            }
        }
    }

    /// The silent copy of the current pattern that adding a pattern appends.
    pub open spec fn new_pattern(self) -> PatternModel {
        PatternModel { name: pattern_name_of(self.patterns.len()), ..self.current().zeroed() }
    }

    /// The state after adding a pattern: the new one is queued while
    /// playing, else switched to.
    pub open spec fn with_added_pattern(self) -> ContextModel {
        let n = self.patterns.len();
        if self.playing {
            ContextModel {
                patterns: self.patterns.push(self.new_pattern()),
                queued_pattern_id: n,
                ..self
            }
        } else {
            ContextModel {
                patterns: self.patterns.push(self.new_pattern()),
                pattern_id: n,
                queued_pattern_id: n,
                ..self
            }
        }
    }

    /// Whether pattern `idx` may be removed: it exists and is not the last one.
    pub open spec fn can_remove(self, idx: nat) -> bool {
        self.patterns.len() > 1 && idx < self.patterns.len()
    }

    /// The state after removing pattern `idx`.
    pub open spec fn with_removed_pattern(self, idx: nat) -> ContextModel {
        let ps = self.patterns.remove(idx as int);
        ContextModel {
            patterns: ps,
            pattern_id: id_after_removal(self.pattern_id, idx, ps.len()),
            queued_pattern_id: id_after_removal(self.queued_pattern_id, idx, ps.len()),
            ..self
        }
    }

    /// Whether slot `slot` of track `t` of the current pattern exists and
    /// `v` is a valid velocity.
    pub open spec fn can_set_slot(self, t: nat, slot: nat, v: nat) -> bool {
        &&& t < self.current().tracks.len()
        &&& slot < self.current().tracks[t as int].len()
        &&& v <= MAX_VELOCITY
    }

    /// The state with slot `slot` of track `t` set to `v`.
    pub open spec fn with_slot(self, t: nat, slot: nat, v: u8) -> ContextModel {
        let tr = self.current().tracks[t as int];
        self.with_current(
            PatternModel {
                tracks: self.current().tracks.update(
                    t as int,
                    TrackModel { slots: tr.slots.update(slot as int, v), ..tr },
                ),
                ..self.current()
            },
        )
    }

    /// The state with track `t` resized to `len` slots.
    pub open spec fn with_track_len(self, t: nat, len: nat) -> ContextModel {
        let tr = self.current().tracks[t as int];
        self.with_current(
            PatternModel {
                tracks: self.current().tracks.update(
                    t as int,
                    TrackModel { slots: resized(tr.slots, len), idx: tr.idx % len, ..tr },
                ),
                ..self.current()
            },
        )
    }

    /// The state with a silent track of the default length bound to `path`
    /// appended to the current pattern.
    pub open spec fn with_track_added(self, path: Seq<char>) -> ContextModel {
        self.with_current(
            PatternModel {
                tracks: self.current().tracks.push(
                    TrackModel {
                        slots: zeros(self.default_len),
                        sample_path: path,
                        name: track_name_of(path),
                        idx: 0,
                    },
                ),
                ..self.current()
            },
        )
    }

    /// The state with track `t` bound to `path`.
    pub open spec fn with_track_sample(self, t: nat, path: Seq<char>) -> ContextModel {
        let tr = self.current().tracks[t as int];
        self.with_current(
            PatternModel {
                tracks: self.current().tracks.update(
                    t as int,
                    TrackModel { sample_path: path, name: track_name_of(path), ..tr },
                ),
                ..self.current()
            },
        )
    }

    /// What auditioning track `t` at velocity `v` emits: its trigger, then a
    /// `Choke` for each track that the trigger silences. Nothing when the
    /// track does not exist or the velocity is out of range.
    pub open spec fn sound_effects(self, t: usize, v: u8) -> Seq<Effect> {
        if t < self.current().tracks.len() && v <= MAX_VELOCITY {
            seq![Effect::Trigger { track_id: t, velocity: v }] + choke_effects(
                self.current().choke_grps,
                seq![t],
                self.current().tracks.len(),
            )
        } else {
            Seq::empty()
        }
    }

    /// The state after applying `cmd`. Commands with an invalid id or an
    /// out-of-range value leave the state unchanged.
    pub open spec fn after(self, cmd: Command) -> ContextModel {
        match cmd {
            Command::PlaySequencer => ContextModel { playing: true, ..self },
            Command::StopSequencer => ContextModel { playing: false, ..self },
            Command::SetTempo(bpm) => if valid_tempo(bpm as int) {
                self.with_tempo(bpm as nat)
            } else {
                self
            },
            Command::SetSlotVelocity(t, slot, v) => if self.can_set_slot(
                t as nat,
                slot as nat,
                v as nat,
            ) {
                self.with_slot(t as nat, slot as nat, v)
            } else {
                self
            },
            Command::SetTrackLength(t, len) => if t < self.current().tracks.len() && 1 <= len
                <= MAX_LEN {
                self.with_track_len(t as nat, len as nat)
            } else {
                self
            },
            Command::AddPattern => if self.patterns.len() < usize::MAX {
                self.with_added_pattern()
            } else {
                self
            },
            Command::RemovePattern(idx) => if self.can_remove(idx as nat) {
                self.with_removed_pattern(idx as nat)
            } else {
                self
            },
            Command::SelectPattern(idx) => if idx < self.patterns.len() {
                self.selected(idx as nat)
            } else {
                self
            },
            Command::SetPatternLength(len) => if 1 <= len <= MAX_LEN {
                self.with_current(self.current().resized(len as nat))
            } else {
                self
            },
            Command::SetDivision(d) => self.with_current(
                PatternModel { division: d, ..self.current() },
            ),
            Command::SetSwing(s) => if s <= MAX_SWING {
                ContextModel { swing: s as nat, ..self }
            } else {
                self
            },
            Command::AddTrack(path) => self.with_track_added(path@),
            Command::SetTrackSample(t, path) => if t < self.current().tracks.len() {
                self.with_track_sample(t as nat, path@)
            } else {
                self
            },
            _ => self,
        }
    }

    /// The state once a queued pattern becomes current, with its playheads
    /// reset; unchanged when none is queued.
    pub open spec fn switched_to_queued(self) -> ContextModel {
        let q = self.queued_pattern_id;
        if q != self.pattern_id {
            ContextModel {
                patterns: self.patterns.update(q as int, self.patterns[q as int].playheads_reset()),
                pattern_id: q,
                ..self
            }
        } else {
            self
        }
    }

    /// What applying `cmd` asks the caller to do.
    pub open spec fn effects(self, cmd: Command) -> Seq<Effect> {
        match cmd {
            Command::PlaySequencer => self.midi_effects(MIDI_START),
            Command::StopSequencer => self.midi_effects(MIDI_STOP),
            Command::PlaySound(t, v) => self.sound_effects(t, v),
            Command::SavePattern => seq![Effect::SavePattern],
            Command::LoadPattern(_) => seq![Effect::LoadPattern],
            Command::ListPatterns => seq![Effect::ListFiles(FileType::Pattern)],
            Command::ListSamples => seq![Effect::ListFiles(FileType::Sample)],
            _ => Seq::empty(),
        }
    }
}

/// The authoritative engine state: the patterns, the transport and the
/// cached file listings. Times are in nanoseconds.
pub struct Context {
    pub patterns: Vec<Pattern>,
    pub saved_patterns: Vec<String>,
    pub sample_files: Vec<String>,
    pub pattern_id: usize,
    /// Pattern to switch to at the next bar; equals `pattern_id` when none
    /// is queued.
    pub queued_pattern_id: usize,
    pub default_len: usize,
    pub tempo: u16,
    pub pulse_interval: u64,
    pub playing: bool,
    pub swing: u8,
    pub midi_connected: bool,
}

impl View for Context {
    type V = ContextModel;

    open spec fn view(&self) -> ContextModel {
        ContextModel {
            patterns: self.patterns@.map_values(|p: Pattern| p@),
            pattern_id: self.pattern_id as nat,
            queued_pattern_id: self.queued_pattern_id as nat,
            default_len: self.default_len as nat,
            tempo: self.tempo as nat,
            pulse_interval: self.pulse_interval as nat,
            playing: self.playing,
            swing: self.swing as nat,
            midi_connected: self.midi_connected,
            saved_patterns: self.saved_patterns@.map_values(|s: String| s@),
            sample_files: self.sample_files@.map_values(|s: String| s@),
        }
    }
}

impl Context {
    /// At least one pattern; both pattern ids in range; every track well
    /// formed; tempo, pulse interval, swing and default length consistent.
    pub open spec fn wf(&self) -> bool {
        &&& self.patterns.len() >= 1
        &&& self.pattern_id < self.patterns.len()
        &&& self.queued_pattern_id < self.patterns.len()
        &&& forall|i: int| 0 <= i < self.patterns.len() ==> #[trigger] self.patterns@[i].wf()
        &&& valid_tempo(self.tempo as int)
        &&& self.pulse_interval == pulse_interval_of(self.tempo as int)
        &&& self.swing <= MAX_SWING
        &&& 1 <= self.default_len <= MAX_LEN
    }

    /// A stopped engine at 120 bpm with one empty pattern, `Pattern 1`, in
    /// eighths, and no MIDI connection.
    pub fn new() -> (r: Context)
        ensures
            r.wf(),
            r@.patterns.len() == 1,
            r@.patterns[0].tracks.len() == 0,
            r@.patterns[0].choke_grps.len() == 0,
            r@.patterns[0].division == Division::E,
            r@.patterns[0].name == pattern_name_of(0),
            r@.pattern_id == 0,
            r@.queued_pattern_id == 0,
            r@.default_len == DEFAULT_TRACK_LEN,
            r@.tempo == DEFAULT_TEMPO,
            !r@.playing,
            r@.swing == 0,
            !r@.midi_connected,
            r@.saved_patterns.len() == 0,
            r@.sample_files.len() == 0,
    {
        let mut patterns: Vec<Pattern> = Vec::new();
        patterns.push(Pattern::new(pattern_name(0), Division::E));
        Context {
            patterns,
            saved_patterns: Vec::new(),
            sample_files: Vec::new(),
            pattern_id: 0,
            queued_pattern_id: 0,
            default_len: DEFAULT_TRACK_LEN,
            tempo: DEFAULT_TEMPO,
            pulse_interval: pulse_interval(DEFAULT_TEMPO),
            playing: false,
            swing: 0,
            midi_connected: false,
        }
    }

    /// Sets the tempo and the pulse interval that follows from it.
    pub fn set_tempo(&mut self, bpm: u16)
        requires
            old(self).wf(),
            valid_tempo(bpm as int),
        ensures
            final(self).wf(),
            final(self)@ == old(self)@.with_tempo(bpm as nat),
    {
        self.tempo = bpm;
        self.pulse_interval = pulse_interval(bpm);
    }

    /// Starts the transport; asks for a MIDI Start when connected.
    pub fn enable_play(&mut self) -> (effects: Vec<Effect>)
        requires
            old(self).wf(),
        ensures
            final(self).wf(),
            final(self)@ == (ContextModel { playing: true, ..old(self)@ }),
            effects@ == old(self)@.midi_effects(MIDI_START),
    {
        self.playing = true;
        self.midi_effect(MIDI_START)
    }

    /// Stops the transport; asks for a MIDI Stop when connected.
    pub fn disable_play(&mut self) -> (effects: Vec<Effect>)
        requires
            old(self).wf(),
        ensures
            final(self).wf(),
            final(self)@ == (ContextModel { playing: false, ..old(self)@ }),
            effects@ == old(self)@.midi_effects(MIDI_STOP),
    {
        self.playing = false;
        self.midi_effect(MIDI_STOP)
    }

    fn midi_effect(&self, byte: u8) -> (effects: Vec<Effect>)
        ensures
            effects@ == self@.midi_effects(byte),
    {
        let mut effects: Vec<Effect> = Vec::new();
        if self.midi_connected {
            effects.push(Effect::Midi(byte));
        }
        proof {
            if self.midi_connected {
                assert(effects@ =~= seq![Effect::Midi(byte)]);
            }
        }
        effects
    }

    /// Puts every playhead of the current pattern on its first slot.
    pub fn reset_playheads(&mut self)
        requires
            old(self).wf(),
        ensures
            final(self).wf(),
            final(self)@ == old(self)@.with_current(old(self)@.current().playheads_reset()),
    {
        let pid = self.pattern_id;
        self.reset_pattern_playheads(pid);
    }

    fn reset_pattern_playheads(&mut self, idx: usize)
        requires
            old(self).wf(),
            idx < old(self).patterns.len(),
        ensures
            final(self).wf(),
            final(self)@ == (ContextModel {
                patterns: old(self)@.patterns.update(
                    idx as int,
                    old(self)@.patterns[idx as int].playheads_reset(),
                ),
                ..old(self)@
            }),
    {
        assert(self.patterns@[idx as int].wf());
        self.patterns[idx].reset_playheads();
        proof {
            self.lemma_pattern_updated(old(self), idx as int);
        }
    }

    /// Selects pattern `idx`: queued for the next bar while playing, else
    /// switched to at once with its playheads reset. Refused, with no
    /// change, when the pattern does not exist.
    pub fn select_pattern(&mut self, idx: usize) -> (ok: bool)
        requires
            old(self).wf(),
        ensures
            final(self).wf(),
            ok == (idx < old(self).patterns.len()),
            final(self)@ == (if ok { old(self)@.selected(idx as nat) } else { old(self)@ }),
    {
        if idx >= self.patterns.len() {
            return false;
        }
        if self.playing {
            self.queued_pattern_id = idx;
        } else {
            self.reset_pattern_playheads(idx);
            assert(self@.patterns.len() == old(self)@.patterns.len());
            self.pattern_id = idx;
            self.queued_pattern_id = idx;
        }
        true
    }

    /// Appends a silent copy of the current pattern named after its
    /// position, and queues it while playing or switches to it when stopped.
    pub fn add_pattern(&mut self)
        requires
            old(self).wf(),
            old(self).patterns.len() < usize::MAX,
        ensures
            final(self).wf(),
            final(self)@ == old(self)@.with_added_pattern(),
    {
        let new_id = self.patterns.len();
        assert(self.patterns@[self.pattern_id as int].wf());
        let mut p = self.patterns[self.pattern_id].copy();
        p.zero_all_tracks();
        p.name = pattern_name(new_id);
        self.patterns.push(p);
        if self.playing {
            self.queued_pattern_id = new_id;
        } else {
            self.pattern_id = new_id;
            self.queued_pattern_id = new_id;
        }
        proof {
            assert(self@.patterns =~= old(self)@.patterns.push(old(self)@.new_pattern()));
            assert forall|i: int| 0 <= i < self.patterns.len() implies #[trigger] self.patterns@[i].wf() by {
                if i < new_id {
                    assert(old(self).patterns@[i].wf());
                }
            }
        }
    }

    /// Removes pattern `idx`; the pattern ids follow `id_after_removal`.
    /// Refused, with no change, when the pattern does not exist or is the
    /// only one.
    pub fn remove_pattern(&mut self, idx: usize) -> (ok: bool)
        requires
            old(self).wf(),
        ensures
            final(self).wf(),
            ok == old(self)@.can_remove(idx as nat),
            final(self)@ == (if ok { old(self)@.with_removed_pattern(idx as nat) } else { old(self)@ }),
    {
        if self.patterns.len() <= 1 || idx >= self.patterns.len() {
            return false;
        }
        self.patterns.remove(idx);
        let new_len = self.patterns.len();
        if self.pattern_id > idx {
            self.pattern_id = self.pattern_id - 1;
        } else if self.pattern_id >= new_len {
            self.pattern_id = new_len - 1;
        }
        if self.queued_pattern_id > idx {
            self.queued_pattern_id = self.queued_pattern_id - 1;
        } else if self.queued_pattern_id >= new_len {
            self.queued_pattern_id = new_len - 1;
        }
        proof {
            assert(self@.patterns =~= old(self)@.patterns.remove(idx as int));
            assert forall|i: int| 0 <= i < self.patterns.len() implies #[trigger] self.patterns@[i].wf() by {
                if i < idx {
                    assert(old(self).patterns@[i].wf());
                } else {
                    assert(old(self).patterns@[i + 1].wf());
                }
            }
        }
        true
    }

    /// Sets the velocity of slot `slot` of track `track_id` of the current
    /// pattern. Refused, with no change, when the slot does not exist or the
    /// velocity is above `MAX_VELOCITY`.
    pub fn set_slot_velocity(&mut self, track_id: usize, slot: usize, velocity: u8) -> (ok: bool)
        requires
            old(self).wf(),
        ensures
            final(self).wf(),
            ok == old(self)@.can_set_slot(track_id as nat, slot as nat, velocity as nat),
            final(self)@ == (if ok {
                old(self)@.with_slot(track_id as nat, slot as nat, velocity)
            } else {
                old(self)@
            }),
    {
        let pid = self.pattern_id;
        assert(self.patterns@[pid as int].wf());
        if track_id >= self.patterns[pid].tracks.len() {
            return false;
        }
        assert(self.patterns@[pid as int].tracks@[track_id as int].wf());
        if slot >= self.patterns[pid].tracks[track_id].len || velocity > MAX_VELOCITY {
            return false;
        }
        self.patterns[pid].set_track_slot(track_id, slot, velocity);
        proof {
            self.lemma_pattern_updated(old(self), pid as int);
        }
        true
    }

    /// Resizes track `track_id` of the current pattern to `len` slots.
    /// Refused, with no change, when the track does not exist or `len` is
    /// outside `[1, MAX_LEN]`.
    pub fn set_track_length(&mut self, track_id: usize, len: usize) -> (ok: bool)
        requires
            old(self).wf(),
        ensures
            final(self).wf(),
            ok == (track_id < old(self)@.current().tracks.len() && 1 <= len <= MAX_LEN),
            final(self)@ == (if ok {
                old(self)@.with_track_len(track_id as nat, len as nat)
            } else {
                old(self)@
            }),
    {
        let pid = self.pattern_id;
        assert(self.patterns@[pid as int].wf());
        if track_id >= self.patterns[pid].tracks.len() || len < 1 || len > MAX_LEN {
            return false;
        }
        self.patterns[pid].set_track_len(track_id, len);
        proof {
            self.lemma_pattern_updated(old(self), pid as int);
        }
        true
    }

    /// Resizes every track of the current pattern to `len` slots. Refused,
    /// with no change, when `len` is outside `[1, MAX_LEN]`.
    pub fn set_pattern_length(&mut self, len: usize) -> (ok: bool)
        requires
            old(self).wf(),
        ensures
            final(self).wf(),
            ok == (1 <= len <= MAX_LEN),
            final(self)@ == (if ok {
                old(self)@.with_current(old(self)@.current().resized(len as nat))
            } else {
                old(self)@
            }),
    {
        if len < 1 || len > MAX_LEN {
            return false;
        }
        let pid = self.pattern_id;
        assert(self.patterns@[pid as int].wf());
        self.patterns[pid].set_len(len);
        proof {
            self.lemma_pattern_updated(old(self), pid as int);
        }
        true
    }

    /// Sets the division of the current pattern.
    pub fn set_division(&mut self, division: Division)
        requires
            old(self).wf(),
        ensures
            final(self).wf(),
            final(self)@ == old(self)@.with_current(
                PatternModel { division, ..old(self)@.current() },
            ),
    {
        let pid = self.pattern_id;
        assert(self.patterns@[pid as int].wf());
        self.patterns[pid].set_division(division);
        proof {
            self.lemma_pattern_updated(old(self), pid as int);
        }
    }

    /// Sets the swing amount. Refused, with no change, above `MAX_SWING`.
    pub fn set_swing(&mut self, swing: u8) -> (ok: bool)
        requires
            old(self).wf(),
        ensures
            final(self).wf(),
            ok == (swing <= MAX_SWING),
            final(self)@ == (if ok {
                ContextModel { swing: swing as nat, ..old(self)@ }
            } else {
                old(self)@
            }),
    {
        if swing > MAX_SWING {
            return false;
        }
        self.swing = swing;
        true
    }

    /// Appends a silent track of the default length, bound to
    /// `sample_path`, to the current pattern. The caller has decoded the
    /// sample beforehand.
    pub fn add_track(&mut self, sample_path: String)
        requires
            old(self).wf(),
        ensures
            final(self).wf(),
            final(self)@ == old(self)@.with_track_added(sample_path@),
    {
        let pid = self.pattern_id;
        let len = self.default_len;
        assert(self.patterns@[pid as int].wf());
        self.patterns[pid].add_track(len, sample_path);
        proof {
            self.lemma_pattern_updated(old(self), pid as int);
        }
    }

    /// Binds track `track_id` of the current pattern to `sample_path`. The
    /// caller has decoded the sample beforehand. Refused, with no change,
    /// when the track does not exist.
    pub fn set_track_sample(&mut self, track_id: usize, sample_path: String) -> (ok: bool)
        requires
            old(self).wf(),
        ensures
            final(self).wf(),
            ok == (track_id < old(self)@.current().tracks.len()),
            final(self)@ == (if ok {
                old(self)@.with_track_sample(track_id as nat, sample_path@)
            } else {
                old(self)@
            }),
    {
        let pid = self.pattern_id;
        assert(self.patterns@[pid as int].wf());
        if track_id >= self.patterns[pid].tracks.len() {
            return false;
        }
        self.patterns[pid].set_track_sample(track_id, sample_path);
        proof {
            self.lemma_pattern_updated(old(self), pid as int);
        }
        true
    }

    /// Auditions track `track_id` at `velocity` without moving any
    /// playhead: its trigger, then the choke of every track it silences.
    pub fn play_sound(&self, track_id: usize, velocity: u8) -> (effects: Vec<Effect>)
        requires
            self.wf(),
        ensures
            effects@ == self@.sound_effects(track_id, velocity),
    {
        let p = &self.patterns[self.pattern_id];
        let mut effects: Vec<Effect> = Vec::new();
        if track_id >= p.tracks.len() || velocity > MAX_VELOCITY {
            return effects;
        }
        effects.push(Effect::Trigger { track_id, velocity });
        let mut triggered: Vec<usize> = Vec::new();
        triggered.push(track_id);
        assert(triggered@ =~= seq![track_id]);
        p.push_chokes(&triggered, &mut effects);
        assert(effects@ =~= seq![Effect::Trigger { track_id, velocity }] + choke_effects(
            self@.current().choke_grps,
            seq![track_id],
            self@.current().tracks.len(),
        ));
        effects
    }

    /// Applies one command and returns what the caller must carry out.
    /// Commands with an invalid id or an out-of-range value change nothing.
    /// `AddTrack` and `SetTrackSample` expect the caller to have decoded
    /// the sample; saving, loading and listing are handed back as effects.
    pub fn apply_command(&mut self, cmd: &Command) -> (effects: Vec<Effect>)
        requires
            old(self).wf(),
        ensures
            final(self).wf(),
            final(self)@ == old(self)@.after(*cmd),
            effects@ == old(self)@.effects(*cmd),
    {
        let mut effects: Vec<Effect> = Vec::new();
        match cmd {
            Command::PlaySequencer => {
                effects = self.enable_play();
            },
            Command::StopSequencer => {
                effects = self.disable_play();
            },
            Command::SetTempo(bpm) => {
                if MIN_TEMPO <= *bpm && *bpm <= MAX_TEMPO {
                    self.set_tempo(*bpm);
                }
            },
            Command::PlaySound(t, v) => {
                effects = self.play_sound(*t, *v);
            },
            Command::SetSlotVelocity(t, slot, v) => {
                self.set_slot_velocity(*t, *slot, *v);
            },
            Command::SetTrackLength(t, len) => {
                self.set_track_length(*t, *len);
            },
            Command::AddPattern => {
                if self.patterns.len() < usize::MAX {
                    self.add_pattern();
                }
            },
            Command::RemovePattern(idx) => {
                self.remove_pattern(*idx);
            },
            Command::SelectPattern(idx) => {
                self.select_pattern(*idx);
            },
            Command::SetPatternLength(len) => {
                self.set_pattern_length(*len);
            },
            Command::SavePattern => {
                effects.push(Effect::SavePattern);
            },
            Command::LoadPattern(_) => {
                effects.push(Effect::LoadPattern);
            },
            Command::ListPatterns => {
                effects.push(Effect::ListFiles(FileType::Pattern));
            },
            Command::ListSamples => {
                effects.push(Effect::ListFiles(FileType::Sample));
            },
            Command::SetDivision(d) => {
                self.set_division(*d);
            },
            Command::SetSwing(s) => {
                self.set_swing(*s);
            },
            Command::AddTrack(path) => {
                self.add_track(path.clone());
            },
            Command::SetTrackSample(t, path) => {
                self.set_track_sample(*t, path.clone());
            },
            Command::Unspecified => {},
        }
        assert(effects@ =~= old(self)@.effects(*cmd));
        effects
    }

    /// Makes the queued pattern current, with its playheads reset, when one
    /// is queued.
    pub fn switch_to_queued(&mut self)
        requires
            old(self).wf(),
        ensures
            final(self).wf(),
            final(self)@ == old(self)@.switched_to_queued(),
    {
        let q = self.queued_pattern_id;
        if q != self.pattern_id {
            self.reset_pattern_playheads(q);
            assert(self@.patterns.len() == old(self)@.patterns.len());
            self.pattern_id = q;
        }
    }

    /// Plays one beat tick of the current pattern, appending its effects.
    pub fn fire_current(&mut self, effects: &mut Vec<Effect>)
        requires
            old(self).wf(),
        ensures
            final(self).wf(),
            final(self)@ == old(self)@.with_current(old(self)@.current().playheads_advanced()),
            final(effects)@ == old(effects)@ + old(self)@.current().fire_effects(),
    {
        let pid = self.pattern_id;
        assert(self.patterns@[pid as int].wf());
        self.patterns[pid].fire(effects);
        proof {
            self.lemma_pattern_updated(old(self), pid as int);
        }
    }

    /// After a change to pattern `idx` alone, the model is the old one with
    /// that pattern replaced, and well-formedness holds if that pattern is
    /// well formed.
    pub(crate) proof fn lemma_pattern_updated(&self, prev: &Context, idx: int)
        requires
            prev.wf(),
            0 <= idx < prev.patterns.len(),
            self.patterns.len() == prev.patterns.len(),
            self.patterns@[idx].wf(),
            forall|j: int| 0 <= j < self.patterns.len() && j != idx ==> self.patterns@[j] == prev.patterns@[j],
            self.pattern_id == prev.pattern_id,
            self.queued_pattern_id == prev.queued_pattern_id,
            self.default_len == prev.default_len,
            self.tempo == prev.tempo,
            self.pulse_interval == prev.pulse_interval,
            self.playing == prev.playing,
            self.swing == prev.swing,
            self.midi_connected == prev.midi_connected,
            self.saved_patterns == prev.saved_patterns,
            self.sample_files == prev.sample_files,
        ensures
            self.wf(),
            self@ == (ContextModel { patterns: prev@.patterns.update(idx, self.patterns@[idx]@), ..prev@ }),
    {
        assert(self@.patterns =~= prev@.patterns.update(idx, self.patterns@[idx]@));
        assert forall|i: int| 0 <= i < self.patterns.len() implies #[trigger] self.patterns@[i].wf() by {
            if i != idx {
                assert(prev.patterns@[i].wf());
            }
        }
    }
}

} // verus!
