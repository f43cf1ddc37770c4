//! Choke groups and patterns.
use vstd::prelude::*;
use crate::timing::Division;
use crate::track::{Track, TrackModel, MAX_LEN, zeros, resized};
use crate::timing::MAX_VELOCITY;
use crate::message::Effect;

verus! {

/// Tracks that silence one another's tails when one of them triggers.
#[derive(Clone, Debug)]
pub struct ChokeGrp {
    pub track_ids: Vec<usize>,
}

/// Whether some group of `grps` holds both `a` and `b`.
pub open spec fn shares_group(grps: Seq<Seq<usize>>, a: usize, b: usize) -> bool {
    exists|g: int| 0 <= g < grps.len() && #[trigger] grps[g].contains(a) && grps[g].contains(b)
}

/// Whether a trigger of track `t` silences track `id`: they differ and
/// share a group.
pub open spec fn chokes(grps: Seq<Seq<usize>>, t: usize, id: usize) -> bool {
    t != id && shares_group(grps, t, id)
}

/// Whether some track of `triggered` silences track `id`.
pub open spec fn is_choked_by(grps: Seq<Seq<usize>>, triggered: Seq<usize>, id: usize) -> bool {
    exists|k: int| 0 <= k < triggered.len() && chokes(grps, #[trigger] triggered[k], id)
}

/// `chokes` restricted to the first `n` groups.
pub open spec fn chokes_within(grps: Seq<Seq<usize>>, n: int, t: usize, id: usize) -> bool {
    t != id && exists|g: int|
        0 <= g < n && #[trigger] grps[g].contains(t) && grps[g].contains(id)
}

impl View for ChokeGrp {
    type V = Seq<usize>;

    open spec fn view(&self) -> Seq<usize> {
        self.track_ids@
    }
}

impl ChokeGrp {
    /// A group of the given track ids.
    pub fn new(tracks: Vec<usize>) -> (r: ChokeGrp)
        ensures
            r@ == tracks@,
    {
        ChokeGrp { track_ids: tracks }
    }

    /// Adds `track_id` to the group unless it is already a member.
    pub fn add_track(&mut self, track_id: usize)
        ensures
            final(self)@ == (if old(self)@.contains(track_id) {
                old(self)@
            } else {
                old(self)@.push(track_id)
            }),
    {
        if !self.is_member(track_id) {
            self.track_ids.push(track_id);
        }
    }

    /// Removes every occurrence of `track_id` from the group.
    pub fn remove_track(&mut self, track_id: usize)
        ensures
            final(self)@ == old(self)@.filter(|x: usize| x != track_id),
    {
        let ghost pred = |x: usize| x != track_id;
        let mut kept: Vec<usize> = Vec::new();
        let mut i: usize = 0;
        while i < self.track_ids.len()
            invariant
                0 <= i <= self.track_ids.len(),
                self.track_ids@ == old(self).track_ids@,
                pred == (|x: usize| x != track_id),
                kept@ == self.track_ids@.subrange(0, i as int).filter(pred),
            decreases self.track_ids.len() - i,
        {
            let x = self.track_ids[i];
            proof {
                assert(self.track_ids@.subrange(0, i + 1).drop_last() =~= self.track_ids@.subrange(
                    0,
                    i as int,
                ));
            }
            let ghost before = kept@;
            if x != track_id {
                kept.push(x);
            }
            proof {
                let sub = self.track_ids@.subrange(0, i + 1);
                assert(sub =~= self.track_ids@.subrange(0, i as int).push(x));
                self.track_ids@.subrange(0, i as int).lemma_filter_push(x, pred);
                assert(pred(x) == (x != track_id));
                assert(sub.filter(pred) == (if pred(x) {
                    before.push(x)
                } else {
                    before
                }));
            }
            i = i + 1;
        }
        assert(self.track_ids@.subrange(0, i as int) =~= self.track_ids@);
        self.track_ids = kept;
    }

    /// Whether `track_id` belongs to the group.
    pub fn is_member(&self, track_id: usize) -> (r: bool)
        ensures
            r == self@.contains(track_id),
    {
        let mut i: usize = 0;
        while i < self.track_ids.len()
            invariant
                0 <= i <= self.track_ids.len(),
                forall|j: int| 0 <= j < i ==> self.track_ids@[j] != track_id,
            decreases self.track_ids.len() - i,
        {
            if self.track_ids[i] == track_id {
                return true;
            }
            i = i + 1;
        }
        false
    }

    /// The other members of the group when `track_id` is a member, else
    /// nothing.
    pub fn get_choked_ids(&self, track_id: usize) -> (r: Vec<usize>)
        ensures
            r@ == (if self@.contains(track_id) {
                self@.filter(|x: usize| x != track_id)
            } else {
                Seq::<usize>::empty()
            }),
    {
        if !self.is_member(track_id) {
            return Vec::new();
        }
        let mut g = self.clone_ids();
        g.remove_track(track_id);
        g.track_ids
    }

    /// A group with the same members.
    pub fn clone_ids(&self) -> (r: ChokeGrp)
        ensures
            r@ == self@,
    {
        let mut ids: Vec<usize> = Vec::new();
        let mut i: usize = 0;
        while i < self.track_ids.len()
            invariant
                0 <= i <= self.track_ids.len(),
                ids@ == self.track_ids@.subrange(0, i as int),
            decreases self.track_ids.len() - i,
        {
            ids.push(self.track_ids[i]);
            i = i + 1;
        }
        assert(ids@ =~= self.track_ids@);
        ChokeGrp { track_ids: ids }
    }
}

/// What a pattern is, as mathematics.
pub struct PatternModel {
    pub tracks: Seq<TrackModel>,
    pub choke_grps: Seq<Seq<usize>>,
    pub division: Division,
    pub name: Seq<char>,
}

impl PatternModel {
    pub open spec fn wf(self) -> bool {
        forall|i: int| 0 <= i < self.tracks.len() ==> #[trigger] self.tracks[i].wf()
    }

    /// The same pattern with every playhead on the first slot.
    pub open spec fn playheads_reset(self) -> PatternModel {
        PatternModel {
            tracks: self.tracks.map_values(|t: TrackModel| TrackModel { idx: 0, ..t }),
            ..self
        }
    }

    /// The pattern with every playhead moved one slot on, wrapping.
    pub open spec fn playheads_advanced(self) -> PatternModel {
        PatternModel {
            tracks: self.tracks.map_values(|t: TrackModel| t.advanced()),
            ..self
        }
    }

    /// What a beat tick of this pattern emits: the triggers of the sounding
    /// tracks in track order, then the chokes those triggers cause.
    pub open spec fn fire_effects(self) -> Seq<Effect> {
        let n = self.tracks.len();
        tick_triggers(self.tracks, n) + choke_effects(
            self.choke_grps,
            tick_triggered(self.tracks, n),
            n,
        )
    }

    /// The same pattern with every slot silent.
    pub open spec fn zeroed(self) -> PatternModel {
        PatternModel {
            tracks: self.tracks.map_values(|t: TrackModel| TrackModel { slots: zeros(t.len()), ..t }),
            ..self
        }
    }

    /// The same pattern with every track resized to `len`.
    pub open spec fn resized(self, len: nat) -> PatternModel {
        PatternModel {
            tracks: self.tracks.map_values(
                |t: TrackModel|
                    TrackModel { slots: resized(t.slots, len), idx: t.idx % len, ..t },
            ),
            ..self
        }
    }
}

/// A set of tracks played together, with their choke groups and division.
#[derive(Clone, Debug)]
pub struct Pattern {
    pub tracks: Vec<Track>,
    pub choke_grps: Vec<ChokeGrp>,
    pub division: Division,
    pub name: String,
}

impl View for Pattern {
    type V = PatternModel;

    open spec fn view(&self) -> PatternModel {
        PatternModel {
            tracks: self.tracks@.map_values(|t: Track| t@),
            choke_grps: self.choke_grps@.map_values(|g: ChokeGrp| g@),
            division: self.division,
            name: self.name@,
        }
    }
}

impl Pattern {
    /// Every track is well formed.
    pub open spec fn wf(&self) -> bool {
        forall|i: int| 0 <= i < self.tracks.len() ==> #[trigger] self.tracks@[i].wf()
    }

    /// An empty pattern.
    pub fn new(name: String, division: Division) -> (r: Pattern)
        ensures
            r.wf(),
            r@.tracks.len() == 0,
            r@.choke_grps.len() == 0,
            r@.division == division,
            r@.name == name@,
    {
        Pattern { tracks: Vec::new(), choke_grps: Vec::new(), division, name }
    }

    /// A pattern equal to this one.
    pub fn copy(&self) -> (r: Pattern)
        requires
            self.wf(),
        ensures
            r.wf(),
            r@ == self@,
    {
        let mut tracks: Vec<Track> = Vec::new();
        let mut i: usize = 0;
        while i < self.tracks.len()
            invariant
                0 <= i <= self.tracks.len(),
                self.wf(),
                tracks@.len() == i,
                forall|j: int| 0 <= j < i ==> #[trigger] tracks@[j]@ == self.tracks@[j]@,
                forall|j: int| 0 <= j < i ==> #[trigger] tracks@[j].wf(),
            decreases self.tracks.len() - i,
        {
            let t = self.tracks[i].copy();
            assert(self.tracks@[i as int].wf());
            assert(t.slots@.len() == self.tracks@[i as int].slots@.len());
            tracks.push(t);
            i = i + 1;
        }
        let mut grps: Vec<ChokeGrp> = Vec::new();
        let mut k: usize = 0;
        while k < self.choke_grps.len()
            invariant
                0 <= k <= self.choke_grps.len(),
                grps@.len() == k,
                forall|j: int| 0 <= j < k ==> #[trigger] grps@[j]@ == self.choke_grps@[j]@,
            decreases self.choke_grps.len() - k,
        {
            let g = self.choke_grps[k].clone_ids();
            grps.push(g);
            k = k + 1;
        }
        let r = Pattern { tracks, choke_grps: grps, division: self.division, name: self.name.clone() };
        assert(r@.tracks =~= self@.tracks);
        assert(r@.choke_grps =~= self@.choke_grps);
        r
    }

    /// The other tracks, over all groups, that a trigger of `track_id`
    /// silences, each once.
    pub fn get_choked_ids(&self, track_id: usize) -> (r: Vec<usize>)
        ensures
            forall|x: usize| r@.contains(x) <==> chokes(self@.choke_grps, track_id, x),
            r@.no_duplicates(),
    {
        let ghost grps = self@.choke_grps;
        let mut r: Vec<usize> = Vec::new();
        let mut gi: usize = 0;
        while gi < self.choke_grps.len()
            invariant
                0 <= gi <= self.choke_grps.len(),
                grps == self@.choke_grps,
                forall|x: usize| r@.contains(x) <==> chokes_within(grps, gi as int, track_id, x),
                r@.no_duplicates(),
            decreases self.choke_grps.len() - gi,
        {
            let g = &self.choke_grps[gi];
            assert(grps[gi as int] == g@);
            if g.is_member(track_id) {
                let mut j: usize = 0;
                while j < g.track_ids.len()
                    invariant
                        0 <= j <= g.track_ids.len(),
                        grps == self@.choke_grps,
                        gi < grps.len(),
                        grps[gi as int] == g@,
                        g@.contains(track_id),
                        forall|x: usize|
                            r@.contains(x) <==> (chokes_within(grps, gi as int, track_id, x) || (x
                                != track_id && g@.subrange(0, j as int).contains(x))),
                        r@.no_duplicates(),
                    decreases g.track_ids.len() - j,
                {
                    let x = g.track_ids[j];
                    proof {
                        assert(g@.subrange(0, j + 1) =~= g@.subrange(0, j as int).push(x));
                    }
                    let ghost before = r@;
                    if x != track_id && !vec_contains(&r, x) {
                        r.push(x);
                    }
                    proof {
                        assert forall|y: usize|
                            r@.contains(y) <==> (chokes_within(grps, gi as int, track_id, y) || (y
                                != track_id && g@.subrange(0, j + 1).contains(y))) by {
                            lemma_push_contains(g@.subrange(0, j as int), x, y);
                            lemma_push_contains(before, x, y);
                        }
                    }
                    j = j + 1;
                }
                proof {
                    assert(g@.subrange(0, j as int) =~= g@);
                    assert forall|x: usize|
                        r@.contains(x) <==> chokes_within(grps, gi + 1, track_id, x) by {
                        if chokes_within(grps, gi + 1, track_id, x) && !chokes_within(
                            grps,
                            gi as int,
                            track_id,
                            x,
                        ) {
                            let w = choose|w: int|
                                0 <= w < gi + 1 && #[trigger] grps[w].contains(track_id)
                                    && grps[w].contains(x);
                            assert(w == gi);
                        }
                        if g@.contains(x) && x != track_id {
                            assert(grps[gi as int].contains(track_id));
                        }
                    }
                }
            } else {
                proof {
                    assert forall|x: usize|
                        r@.contains(x) <==> chokes_within(grps, gi + 1, track_id, x) by {
                        if chokes_within(grps, gi + 1, track_id, x) {
                            let w = choose|w: int|
                                0 <= w < gi + 1 && #[trigger] grps[w].contains(track_id)
                                    && grps[w].contains(x);
                            assert(w != gi);
                        }
                    }
                }
            }
            gi = gi + 1;
        }
        proof {
            assert forall|x: usize|
                r@.contains(x) <==> chokes(grps, track_id, x) by {
                if chokes_within(grps, gi as int, track_id, x) {
                    let w = choose|w: int|
                        0 <= w < gi && #[trigger] grps[w].contains(track_id) && grps[w].contains(x);
                    assert(grps[w].contains(track_id) && grps[w].contains(x));
                }
                if chokes(grps, track_id, x) {
                    let w = choose|w: int|
                        0 <= w < grps.len() && #[trigger] grps[w].contains(track_id)
                            && grps[w].contains(x);
                    assert(grps[w].contains(track_id) && grps[w].contains(x));
                }
            }
        }
        r
    }

    /// Whether a trigger of one of `triggered_ids` silences `track_id`.
    pub fn is_trk_choked(&self, triggered_ids: &Vec<usize>, track_id: usize) -> (r: bool)
        ensures
            r == is_choked_by(self@.choke_grps, triggered_ids@, track_id),
    {
        let mut k: usize = 0;
        while k < triggered_ids.len()
            invariant
                0 <= k <= triggered_ids.len(),
                forall|j: int|
                    0 <= j < k ==> !chokes(self@.choke_grps, #[trigger] triggered_ids@[j], track_id),
            decreases triggered_ids.len() - k,
        {
            let t = triggered_ids[k];
            let ids = self.get_choked_ids(t);
            if vec_contains(&ids, track_id) {
                return true;
            }
            k = k + 1;
        }
        false
    }

    /// Silences every slot of every track.
    pub fn zero_all_tracks(&mut self)
        requires
            old(self).wf(),
        ensures
            final(self).wf(),
            final(self)@ == old(self)@.zeroed(),
    {
        let mut i: usize = 0;
        while i < self.tracks.len()
            invariant
                0 <= i <= self.tracks.len(),
                self.tracks.len() == old(self).tracks.len(),
                self.choke_grps == old(self).choke_grps,
                self.division == old(self).division,
                self.name == old(self).name,
                forall|j: int| 0 <= j < self.tracks.len() ==> #[trigger] self.tracks@[j].wf(),
                forall|j: int|
                    0 <= j < i ==> #[trigger] self.tracks@[j]@ == (TrackModel {
                        slots: zeros(old(self).tracks@[j]@.len()),
                        ..old(self).tracks@[j]@
                    }),
                forall|j: int| i <= j < self.tracks.len() ==> #[trigger] self.tracks@[j] == old(self).tracks@[j],
            decreases self.tracks.len() - i,
        {
            self.tracks[i].reset_slots();
            i = i + 1;
        }
        assert(self@.tracks =~= old(self)@.zeroed().tracks);
    }

    /// Puts every playhead on the first slot.
    pub fn reset_playheads(&mut self)
        requires
            old(self).wf(),
        ensures
            final(self).wf(),
            final(self)@ == old(self)@.playheads_reset(),
    {
        let mut i: usize = 0;
        while i < self.tracks.len()
            invariant
                0 <= i <= self.tracks.len(),
                self.tracks.len() == old(self).tracks.len(),
                self.choke_grps == old(self).choke_grps,
                self.division == old(self).division,
                self.name == old(self).name,
                forall|j: int| 0 <= j < self.tracks.len() ==> #[trigger] self.tracks@[j].wf(),
                forall|j: int|
                    0 <= j < i ==> #[trigger] self.tracks@[j]@ == (TrackModel {
                        idx: 0,
                        ..old(self).tracks@[j]@
                    }),
                forall|j: int| i <= j < self.tracks.len() ==> #[trigger] self.tracks@[j] == old(self).tracks@[j],
            decreases self.tracks.len() - i,
        {
            self.tracks[i].reset_playhead();
            i = i + 1;
        }
        assert(self@.tracks =~= old(self)@.playheads_reset().tracks);
    }

    /// Resizes every track to `len` slots.
    pub fn set_len(&mut self, len: usize)
        requires
            old(self).wf(),
            1 <= len <= MAX_LEN,
        ensures
            final(self).wf(),
            final(self)@ == old(self)@.resized(len as nat),
    {
        let mut i: usize = 0;
        while i < self.tracks.len()
            invariant
                0 <= i <= self.tracks.len(),
                1 <= len <= MAX_LEN,
                self.tracks.len() == old(self).tracks.len(),
                self.choke_grps == old(self).choke_grps,
                self.division == old(self).division,
                self.name == old(self).name,
                forall|j: int| 0 <= j < self.tracks.len() ==> #[trigger] self.tracks@[j].wf(),
                forall|j: int|
                    0 <= j < i ==> #[trigger] self.tracks@[j]@ == (TrackModel {
                        slots: resized(old(self).tracks@[j]@.slots, len as nat),
                        idx: (old(self).tracks@[j]@.idx % len as nat) as nat,
                        ..old(self).tracks@[j]@
                    }),
                forall|j: int| i <= j < self.tracks.len() ==> #[trigger] self.tracks@[j] == old(self).tracks@[j],
            decreases self.tracks.len() - i,
        {
            self.tracks[i].set_len(len);
            i = i + 1;
        }
        assert(self@.tracks =~= old(self)@.resized(len as nat).tracks);
    }

    /// Plays one beat tick: every track whose playhead is on a sounding slot
    /// triggers, in track order; every playhead moves one slot on; then
    /// every track that one of the triggers silences is choked.
    pub fn fire(&mut self, effects: &mut Vec<Effect>)
        requires
            old(self).wf(),
        ensures
            final(self).wf(),
            final(self)@ == old(self)@.playheads_advanced(),
            final(effects)@ == old(effects)@ + old(self)@.fire_effects(),
    {
        let ghost tracks0 = self@.tracks;
        let mut triggered: Vec<usize> = Vec::new();
        let mut i: usize = 0;
        assert(old(effects)@ + tick_triggers(tracks0, 0) =~= old(effects)@);
        while i < self.tracks.len()
            invariant
                0 <= i <= self.tracks.len(),
                self.tracks.len() == old(self).tracks.len(),
                tracks0 == old(self)@.tracks,
                self.choke_grps == old(self).choke_grps,
                self.division == old(self).division,
                self.name == old(self).name,
                forall|j: int| 0 <= j < self.tracks.len() ==> #[trigger] self.tracks@[j].wf(),
                forall|j: int|
                    0 <= j < i ==> #[trigger] self.tracks@[j]@ == tracks0[j].advanced(),
                forall|j: int| i <= j < self.tracks.len() ==> #[trigger] self.tracks@[j] == old(self).tracks@[j],
                effects@ == old(effects)@ + tick_triggers(tracks0, i as nat),
                triggered@ == tick_triggered(tracks0, i as nat),
            decreases self.tracks.len() - i,
        {
            assert(self.tracks@[i as int].wf());
            let v = self.tracks[i].current_velocity();
            assert(v == playhead_velocity(tracks0[i as int]));
            if v > 0 {
                effects.push(Effect::Trigger { track_id: i, velocity: v });
                triggered.push(i);
            }
            proof {
                let prev = tick_triggers(tracks0, i as nat);
                assert((old(effects)@ + prev).push(Effect::Trigger { track_id: i, velocity: v })
                    =~= old(effects)@ + prev.push(Effect::Trigger { track_id: i, velocity: v }));
            }
            self.tracks[i].advance();
            i = i + 1;
        }
        proof {
            let adv = old(self)@.playheads_advanced().tracks;
            assert forall|j: int| 0 <= j < adv.len() implies self@.tracks[j] == adv[j] by {
                assert(self@.tracks[j] == self.tracks@[j]@);
                assert(tracks0[j] == old(self).tracks@[j]@);
            }
            assert(self@.tracks =~= adv);
        }
        self.push_chokes(&triggered, effects);
        assert(effects@ =~= old(effects)@ + old(self)@.fire_effects());
    }

    /// Appends a `Choke` for each track that a trigger of `triggered`
    /// silences, in track order.
    pub fn push_chokes(&self, triggered: &Vec<usize>, effects: &mut Vec<Effect>)
        ensures
            final(effects)@ == old(effects)@ + choke_effects(
                self@.choke_grps,
                triggered@,
                self.tracks.len() as nat,
            ),
    {
        let mut i: usize = 0;
        assert(old(effects)@ + choke_effects(self@.choke_grps, triggered@, 0) =~= old(effects)@);
        while i < self.tracks.len()
            invariant
                0 <= i <= self.tracks.len(),
                effects@ == old(effects)@ + choke_effects(self@.choke_grps, triggered@, i as nat),
            decreases self.tracks.len() - i,
        {
            if self.is_trk_choked(triggered, i) {
                effects.push(Effect::Choke { track_id: i });
            }
            proof {
                let prev = choke_effects(self@.choke_grps, triggered@, i as nat);
                assert((old(effects)@ + prev).push(Effect::Choke { track_id: i }) =~= old(effects)@ + prev.push(Effect::Choke { track_id: i }));
            }
            i = i + 1;
        }
    }

    /// Sets the velocity of slot `slot` of track `track_id`.
    pub fn set_track_slot(&mut self, track_id: usize, slot: usize, velocity: u8)
        requires
            old(self).wf(),
            track_id < old(self).tracks.len(),
            slot < old(self).tracks@[track_id as int].len,
            velocity <= MAX_VELOCITY,
        ensures
            final(self).wf(),
            final(self)@ == (PatternModel {
                tracks: old(self)@.tracks.update(
                    track_id as int,
                    TrackModel {
                        slots: old(self)@.tracks[track_id as int].slots.update(slot as int, velocity),
                        ..old(self)@.tracks[track_id as int]
                    },
                ),
                ..old(self)@
            }),
    {
        assert(self.tracks@[track_id as int].wf());
        self.tracks[track_id].set_slot(slot, velocity);
        assert(self@.tracks =~= old(self)@.tracks.update(track_id as int, self.tracks@[track_id as int]@));
    }

    /// Resizes track `track_id` to `len` slots.
    pub fn set_track_len(&mut self, track_id: usize, len: usize)
        requires
            old(self).wf(),
            track_id < old(self).tracks.len(),
            1 <= len <= MAX_LEN,
        ensures
            final(self).wf(),
            final(self)@ == (PatternModel {
                tracks: old(self)@.tracks.update(
                    track_id as int,
                    TrackModel {
                        slots: resized(old(self)@.tracks[track_id as int].slots, len as nat),
                        idx: (old(self)@.tracks[track_id as int].idx % len as nat) as nat,
                        ..old(self)@.tracks[track_id as int]
                    },
                ),
                ..old(self)@
            }),
    {
        assert(self.tracks@[track_id as int].wf());
        self.tracks[track_id].set_len(len);
        assert(self@.tracks =~= old(self)@.tracks.update(track_id as int, self.tracks@[track_id as int]@));
    }

    /// Adds a choke group.
    pub fn add_choke_grp(&mut self, grp: ChokeGrp)
        requires
            old(self).wf(),
        ensures
            final(self).wf(),
            final(self)@ == (PatternModel { choke_grps: old(self)@.choke_grps.push(grp@), ..old(self)@ }),
    {
        self.choke_grps.push(grp);
        assert(self@.choke_grps =~= old(self)@.choke_grps.push(grp@));
    }

    /// Removes choke group `g`. Refused, with no change, when it does not
    /// exist.
    pub fn remove_choke_grp(&mut self, g: usize) -> (ok: bool)
        requires
            old(self).wf(),
        ensures
            final(self).wf(),
            ok == (g < old(self).choke_grps.len()),
            final(self)@ == (if ok {
                PatternModel { choke_grps: old(self)@.choke_grps.remove(g as int), ..old(self)@ }
            } else {
                old(self)@
            }),
    {
        if g >= self.choke_grps.len() {
            return false;
        }
        self.choke_grps.remove(g);
        assert(self@.choke_grps =~= old(self)@.choke_grps.remove(g as int));
        true
    }

    /// Adds track `track_id` to choke group `g` unless it is a member.
    /// Refused, with no change, when the group does not exist.
    pub fn add_track_to_grp(&mut self, g: usize, track_id: usize) -> (ok: bool)
        requires
            old(self).wf(),
        ensures
            final(self).wf(),
            ok == (g < old(self).choke_grps.len()),
            final(self)@ == (if ok {
                let grp = old(self)@.choke_grps[g as int];
                PatternModel {
                    choke_grps: old(self)@.choke_grps.update(
                        g as int,
                        if grp.contains(track_id) { grp } else { grp.push(track_id) },
                    ),
                    ..old(self)@
                }
            } else {
                old(self)@
            }),
    {
        if g >= self.choke_grps.len() {
            return false;
        }
        self.choke_grps[g].add_track(track_id);
        assert(self@.choke_grps =~= old(self)@.choke_grps.update(g as int, self.choke_grps@[g as int]@));
        true
    }

    /// Removes track `track_id` from choke group `g`. Refused, with no
    /// change, when the group does not exist.
    pub fn remove_track_from_grp(&mut self, g: usize, track_id: usize) -> (ok: bool)
        requires
            old(self).wf(),
        ensures
            final(self).wf(),
            ok == (g < old(self).choke_grps.len()),
            final(self)@ == (if ok {
                PatternModel {
                    choke_grps: old(self)@.choke_grps.update(
                        g as int,
                        old(self)@.choke_grps[g as int].filter(|x: usize| x != track_id),
                    ),
                    ..old(self)@
                }
            } else {
                old(self)@
            }),
    {
        if g >= self.choke_grps.len() {
            return false;
        }
        self.choke_grps[g].remove_track(track_id);
        assert(self@.choke_grps =~= old(self)@.choke_grps.update(g as int, self.choke_grps@[g as int]@));
        true
    }

    /// Sets the time division.
    pub fn set_division(&mut self, division: Division)
        ensures
            final(self)@ == (PatternModel { division, ..old(self)@ }),
            final(self).wf() == old(self).wf(),
    {
        self.division = division;
    }

    /// Appends a silent track of `len` slots bound to `sample_path`.
    pub fn add_track(&mut self, len: usize, sample_path: String)
        requires
            old(self).wf(),
            1 <= len <= MAX_LEN,
        ensures
            final(self).wf(),
            final(self)@ == (PatternModel {
                tracks: old(self)@.tracks.push(
                    TrackModel {
                        slots: zeros(len as nat),
                        sample_path: sample_path@,
                        name: crate::track::track_name_of(sample_path@),
                        idx: 0,
                    },
                ),
                ..old(self)@
            }),
    {
        let t = Track::new(len, sample_path);
        self.tracks.push(t);
        assert(self@.tracks =~= old(self)@.tracks.push(t@));
    }

    /// Binds track `track_id` to another sample.
    pub fn set_track_sample(&mut self, track_id: usize, sample_path: String)
        requires
            old(self).wf(),
            track_id < old(self).tracks.len(),
        ensures
            final(self).wf(),
            final(self)@ == (PatternModel {
                tracks: old(self)@.tracks.update(
                    track_id as int,
                    TrackModel {
                        sample_path: sample_path@,
                        name: crate::track::track_name_of(sample_path@),
                        ..old(self)@.tracks[track_id as int]
                    },
                ),
                ..old(self)@
            }),
    {
        assert(self.tracks@[track_id as int].wf());
        self.tracks[track_id].set_sample(sample_path);
        assert(self@.tracks =~= old(self)@.tracks.update(track_id as int, self.tracks@[track_id as int]@));
    }
}

proof fn lemma_push_contains(s: Seq<usize>, x: usize, y: usize)
    ensures
        s.push(x).contains(y) <==> (s.contains(y) || y == x),
{
    if s.push(x).contains(y) {
        let k = choose|k: int| 0 <= k < s.push(x).len() && s.push(x)[k] == y;
        if k < s.len() {
            assert(s[k] == y);
        }
    }
    if s.contains(y) {
        let k = choose|k: int| 0 <= k < s.len() && s[k] == y;
        assert(s.push(x)[k] == y);
    }
    if y == x {
        assert(s.push(x)[s.len() as int] == y);
    }
}

/// One `Choke` for each of the first `n` tracks that a trigger of
/// `triggered` silences, in track order.
pub open spec fn choke_effects(grps: Seq<Seq<usize>>, triggered: Seq<usize>, n: nat) -> Seq<Effect>
    decreases n,
{
    if n == 0 {
        Seq::empty()
    } else {
        let prev = choke_effects(grps, triggered, (n - 1) as nat);
        if is_choked_by(grps, triggered, (n - 1) as usize) {
            prev.push(Effect::Choke { track_id: (n - 1) as usize })
        } else {
            prev
        }
    }
}

/// Every effect of `choke_effects` is a `Choke`.
pub proof fn lemma_choke_effects_only_chokes(grps: Seq<Seq<usize>>, triggered: Seq<usize>, n: nat)
    ensures
        forall|i: int|
            0 <= i < choke_effects(grps, triggered, n).len() ==> (#[trigger] choke_effects(
                grps,
                triggered,
                n,
            )[i]).is_choke(),
    decreases n,
{
    if n > 0 {
        lemma_choke_effects_only_chokes(grps, triggered, (n - 1) as nat);
        let prev = choke_effects(grps, triggered, (n - 1) as nat);
        let all = choke_effects(grps, triggered, n);
        assert forall|i: int| 0 <= i < all.len() implies (#[trigger] all[i]).is_choke() by {
            if i < prev.len() {
                assert(prev[i].is_choke());
                assert(all[i] == prev[i]);
            }
        }
    }
}

/// The velocity under the playhead of `t`.
pub open spec fn playhead_velocity(t: TrackModel) -> u8 {
    t.slots[t.idx as int]
}

/// One `Trigger` for each of the first `n` tracks whose playhead is on a
/// sounding slot, in track order.
pub open spec fn tick_triggers(tracks: Seq<TrackModel>, n: nat) -> Seq<Effect>
    decreases n,
{
    if n == 0 {
        Seq::empty()
    } else {
        let prev = tick_triggers(tracks, (n - 1) as nat);
        let v = playhead_velocity(tracks[n - 1]);
        if v > 0 {
            prev.push(Effect::Trigger { track_id: (n - 1) as usize, velocity: v })
        } else {
            prev
        }
    }
}

/// Ids of the first `n` tracks whose playhead is on a sounding slot.
pub open spec fn tick_triggered(tracks: Seq<TrackModel>, n: nat) -> Seq<usize>
    decreases n,
{
    if n == 0 {
        Seq::empty()
    } else {
        let prev = tick_triggered(tracks, (n - 1) as nat);
        if playhead_velocity(tracks[n - 1]) > 0 {
            prev.push((n - 1) as usize)
        } else {
            prev
        }
    }
}

/// Every effect of `tick_triggers` is a `Trigger`.
pub proof fn lemma_tick_triggers_only_triggers(tracks: Seq<TrackModel>, n: nat)
    ensures
        forall|i: int|
            0 <= i < tick_triggers(tracks, n).len() ==> (#[trigger] tick_triggers(
                tracks,
                n,
            )[i]).is_trigger(),
    decreases n,
{
    if n > 0 {
        lemma_tick_triggers_only_triggers(tracks, (n - 1) as nat);
        let prev = tick_triggers(tracks, (n - 1) as nat);
        let all = tick_triggers(tracks, n);
        assert forall|i: int| 0 <= i < all.len() implies (#[trigger] all[i]).is_trigger() by {
            if i < prev.len() {
                assert(prev[i].is_trigger());
                assert(all[i] == prev[i]);
            }
        }
    }
}

/// Whether `v` holds `x`.
pub fn vec_contains(v: &Vec<usize>, x: usize) -> (r: bool)
    ensures
        r == v@.contains(x),
{
    let mut i: usize = 0;
    while i < v.len()
        invariant
            0 <= i <= v.len(),
            forall|j: int| 0 <= j < i ==> v@[j] != x,
        decreases v.len() - i,
    {
        if v[i] == x {
            return true;
        }
        i = i + 1;
    }
    false
}

} // verus!
