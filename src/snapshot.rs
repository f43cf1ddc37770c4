//! Snapshots of the engine for its consumers.
use vstd::prelude::*;
use crate::track::{Track, TrackModel};
use crate::context::{Context, ContextModel};
use crate::message::{FileState, FileType, SeqState, TrackState};

verus! {

/// Whether `s` describes the track `t`.
pub open spec fn describes_track(s: TrackState, t: TrackModel) -> bool {
    &&& s.slots@ == t.slots
    &&& s.name@ == t.name
    &&& s.len == t.len()
    &&& s.idx == t.idx
    &&& s.sample_path@ == t.sample_path
}

/// Whether `s` describes the engine `c` with latency `latency`.
pub open spec fn describes(s: SeqState, c: ContextModel, latency: u64) -> bool {
    &&& s.tempo == c.tempo
    &&& s.trks@.len() == c.current().tracks.len()
    &&& forall|i: int| 0 <= i < s.trks@.len() ==> describes_track(#[trigger] s.trks@[i], c.current().tracks[i])
    &&& s.division == c.current().division.spec_value()
    &&& s.default_len == c.default_len
    &&& s.latency == latency
    &&& s.playing == c.playing
    &&& s.pattern_id == c.pattern_id
    &&& s.pattern_len == c.patterns.len()
    &&& s.pattern_name@ == c.current().name
    &&& s.queued_pattern_id == c.queued_pattern_id
    &&& s.swing == c.swing
}

/// A copy of `v`.
pub fn copy_strings(v: &Vec<String>) -> (r: Vec<String>)
    ensures
        r@.map_values(|s: String| s@) == v@.map_values(|s: String| s@),
{
    let mut r: Vec<String> = Vec::new();
    let mut i: usize = 0;
    while i < v.len()
        invariant
            0 <= i <= v.len(),
            r@.len() == i,
            forall|j: int| 0 <= j < i ==> #[trigger] r@[j]@ == v@[j]@,
        decreases v.len() - i,
    {
        r.push(v[i].clone());
        i = i + 1;
    }
    assert(r@.map_values(|s: String| s@) =~= v@.map_values(|s: String| s@));
    r
}

impl Track {
    /// A snapshot of this track.
    pub fn state(&self) -> (r: TrackState)
        requires
            self.wf(),
        ensures
            describes_track(r, self@),
    {
        let mut slots: Vec<u8> = Vec::new();
        let mut i: usize = 0;
        while i < self.slots.len()
            invariant
                0 <= i <= self.slots.len(),
                slots@ == self@.slots.subrange(0, i as int),
            decreases self.slots.len() - i,
        {
            slots.push(self.slots[i].velocity);
            i = i + 1;
            assert(slots@ =~= self@.slots.subrange(0, i as int));
        }
        assert(slots@ =~= self@.slots);
        TrackState {
            slots,
            name: self.name.clone(),
            len: self.len,
            idx: self.idx,
            sample_path: self.sample_path.clone(),
        }
    }
}

impl Context {
    /// A snapshot of the engine, with the scheduler's `latency`.
    pub fn snapshot(&self, latency: u64) -> (r: SeqState)
        requires
            self.wf(),
        ensures
            describes(r, self@, latency),
    {
        let p = &self.patterns[self.pattern_id];
        assert(p.wf());
        let mut trks: Vec<TrackState> = Vec::new();
        let mut i: usize = 0;
        while i < p.tracks.len()
            invariant
                0 <= i <= p.tracks.len(),
                p.wf(),
                trks@.len() == i,
                forall|j: int| 0 <= j < i ==> describes_track(#[trigger] trks@[j], p.tracks@[j]@),
            decreases p.tracks.len() - i,
        {
            assert(p.tracks@[i as int].wf());
            trks.push(p.tracks[i].state());
            i = i + 1;
        }
        SeqState {
            tempo: self.tempo,
            trks,
            division: p.division.value(),
            default_len: self.default_len,
            latency,
            playing: self.playing,
            pattern_id: self.pattern_id,
            pattern_len: self.patterns.len(),
            pattern_name: p.name.clone(),
            queued_pattern_id: self.queued_pattern_id,
            swing: self.swing,
        }
    }

    /// The cached listing of the given kind.
    pub fn file_state(&self, file_type: FileType) -> (r: FileState)
        ensures
            r.file_type == file_type,
            r.files@.map_values(|s: String| s@) == (match file_type {
                FileType::Pattern => self@.saved_patterns,
                FileType::Sample => self@.sample_files,
            }),
    {
        let files = match file_type {
            FileType::Pattern => copy_strings(&self.saved_patterns),
            FileType::Sample => copy_strings(&self.sample_files),
        };
        FileState { file_type, files }
    }

    /// Replaces the cached listing of the given kind.
    pub fn set_files(&mut self, file_type: FileType, files: Vec<String>)
        requires
            old(self).wf(),
        ensures
            final(self).wf(),
            final(self)@ == (match file_type {
                FileType::Pattern => ContextModel {
                    saved_patterns: files@.map_values(|s: String| s@),
                    ..old(self)@
                },
                FileType::Sample => ContextModel {
                    sample_files: files@.map_values(|s: String| s@),
                    ..old(self)@
                },
            }),
    {
        match file_type {
            FileType::Pattern => {
                self.saved_patterns = files;
            },
            FileType::Sample => {
                self.sample_files = files;
            },
        }
    }
}

} // verus!
