//! Tracks: a row of velocity slots with a playhead.
use vstd::prelude::*;
use vstd::string::*;
use crate::timing::MAX_VELOCITY;

verus! {

/// Largest number of slots in one track.
pub const MAX_LEN: usize = 256;

/// A single step cell; velocity 0 is silent.
#[derive(Clone, Copy, Debug, PartialEq, Eq, Structural, Hash)]
pub struct Slot {
    pub velocity: u8,
}

/// What a track is, as mathematics: its slot velocities, its sample path,
/// its display name and its playhead. Its length is the number of slots.
pub struct TrackModel {
    pub slots: Seq<u8>,
    pub sample_path: Seq<char>,
    pub name: Seq<char>,
    pub idx: nat,
}

impl TrackModel {
    pub open spec fn len(self) -> nat {
        self.slots.len()
    }

    /// The track with its playhead moved one slot on, wrapping.
    pub open spec fn advanced(self) -> TrackModel {
        TrackModel { idx: ((self.idx as int + 1) % (self.slots.len() as int)) as nat, ..self }
    }

    /// The playhead lies on a slot, the length is in `[1, MAX_LEN]` and every
    /// velocity is at most `MAX_VELOCITY`.
    pub open spec fn wf(self) -> bool {
        &&& 1 <= self.slots.len() <= MAX_LEN
        &&& self.idx < self.slots.len()
        &&& valid_velocities(self.slots)
    }
}

/// Every velocity of `s` is at most `MAX_VELOCITY`.
pub open spec fn valid_velocities(s: Seq<u8>) -> bool {
    forall|i: int| 0 <= i < s.len() ==> #[trigger] s[i] <= MAX_VELOCITY
}

/// `n` silent slots.
pub open spec fn zeros(n: nat) -> Seq<u8> {
    Seq::new(n, |i: int| 0u8)
}

/// `s` cut or padded with silent slots to length `n`.
pub open spec fn resized(s: Seq<u8>, n: nat) -> Seq<u8> {
    Seq::new(n, |i: int| if i < s.len() { s[i] } else { 0u8 })
}

/// `s` with its first slots overwritten by `vs`; entries of `vs` beyond the
/// length of `s` are ignored.
pub open spec fn overwritten(s: Seq<u8>, vs: Seq<u8>) -> Seq<u8> {
    Seq::new(s.len(), |i: int| if i < vs.len() { vs[i] } else { s[i] })
}

/// Position just after the last `c` in `s`, or 0 when there is none.
pub open spec fn after_last(s: Seq<char>, c: char) -> int
    decreases s.len(),
{
    if s.len() == 0 {
        0
    } else if s.last() == c {
        s.len() as int
    } else {
        after_last(s.drop_last(), c)
    }
}

/// Position of the first `c` in `s`, or its length when there is none.
pub open spec fn first_or_len(s: Seq<char>, c: char) -> int
    decreases s.len(),
{
    if s.len() == 0 {
        0
    } else if s[0] == c {
        0
    } else {
        1 + first_or_len(s.drop_first(), c)
    }
}

/// The display name of a sample path: the file name after the last `/`, up
/// to its first `.`.
pub open spec fn track_name_of(p: Seq<char>) -> Seq<char> {
    let file = p.subrange(after_last(p, '/'), p.len() as int);
    file.subrange(0, first_or_len(file, '.'))
}

proof fn lemma_after_last_bounds(s: Seq<char>, c: char)
    ensures
        0 <= after_last(s, c) <= s.len(),
    decreases s.len(),
{
    if s.len() > 0 && s.last() != c {
        lemma_after_last_bounds(s.drop_last(), c);
    }
}

proof fn lemma_first_or_len_bounds(s: Seq<char>, c: char)
    ensures
        0 <= first_or_len(s, c) <= s.len(),
    decreases s.len(),
{
    if s.len() > 0 && s[0] != c {
        lemma_first_or_len_bounds(s.drop_first(), c);
    }
}

/// The display name of a sample path.
pub fn track_name(path: &str) -> (r: String)
    ensures
        r@ == track_name_of(path@),
{
    let s = Ghost(path@);
    let n = path.unicode_len();
    let mut start: usize = n;
    proof {
        assert(s@.subrange(0, n as int) =~= s@);
    }
    while start > 0 && path.get_char(start - 1) != '/'
        invariant
            s@ == path@,
            n == s@.len(),
            start <= n,
            after_last(s@, '/') == after_last(s@.subrange(0, start as int), '/'),
        decreases start,
    {
        proof {
            assert(s@.subrange(0, start as int).drop_last() =~= s@.subrange(0, start - 1));
        }
        start = start - 1;
    }
    assert(after_last(s@, '/') == start);
    let ghost file = s@.subrange(start as int, n as int);
    let mut end: usize = start;
    proof {
        assert(file.subrange(0, file.len() as int) =~= file);
    }
    while end < n && path.get_char(end) != '.'
        invariant
            s@ == path@,
            n == s@.len(),
            start <= end <= n,
            file == s@.subrange(start as int, n as int),
            first_or_len(file, '.') == (end - start) + first_or_len(
                file.subrange(end - start, file.len() as int),
                '.',
            ),
        decreases n - end,
    {
        proof {
            let rest = file.subrange(end - start, file.len() as int);
            assert(rest.drop_first() =~= file.subrange(end - start + 1, file.len() as int));
        }
        end = end + 1;
    }
    proof {
        assert(file.subrange(end - start, file.len() as int).len() == 0 || file[end - start]
            == '.');
        assert(first_or_len(file, '.') == end - start);
        assert(file.subrange(0, (end - start) as int) =~= s@.subrange(start as int, end as int));
    }
    path.substring_char(start, end).to_owned()
}

/// An ordered row of slots with a playhead, bound to a sample.
#[derive(Clone, Debug)]
pub struct Track {
    pub slots: Vec<Slot>,
    pub sample_path: String,
    pub idx: usize,
    pub len: usize,
    pub name: String,
}

impl View for Track {
    type V = TrackModel;

    open spec fn view(&self) -> TrackModel {
        TrackModel {
            slots: self.slots@.map_values(|s: Slot| s.velocity),
            sample_path: self.sample_path@,
            name: self.name@,
            idx: self.idx as nat,
        }
    }
}

impl Track {
    /// The stored length matches the slots and the model is well formed.
    pub open spec fn wf(&self) -> bool {
        &&& self.len == self.slots.len()
        &&& self@.wf()
    }

    /// A silent track of `len` slots with its playhead on the first slot.
    pub fn new(len: usize, sample_path: String) -> (r: Track)
        requires
            1 <= len <= MAX_LEN,
        ensures
            r.wf(),
            r@.slots == zeros(len as nat),
            r@.sample_path == sample_path@,
            r@.name == track_name_of(sample_path@),
            r@.idx == 0,
    {
        let mut slots: Vec<Slot> = Vec::new();
        let mut i: usize = 0;
        while i < len
            invariant
                i <= len,
                slots@.len() == i,
                forall|j: int| 0 <= j < i ==> slots@[j].velocity == 0,
            decreases len - i,
        {
            slots.push(Slot { velocity: 0 });
            i = i + 1;
        }
        let name = track_name(sample_path.as_str());
        let r = Track { slots, sample_path, idx: 0, len, name };
        assert(r@.slots =~= zeros(len as nat));
        r
    }

    /// A track equal to this one.
    pub fn copy(&self) -> (r: Track)
        ensures
            r@ == self@,
            r.len == self.len,
            r.slots@ == self.slots@,
    {
        let mut slots: Vec<Slot> = Vec::new();
        let mut i: usize = 0;
        while i < self.slots.len()
            invariant
                0 <= i <= self.slots.len(),
                slots@ == self.slots@.subrange(0, i as int),
            decreases self.slots.len() - i,
        {
            slots.push(self.slots[i]);
            i = i + 1;
        }
        assert(slots@ =~= self.slots@);
        Track {
            slots,
            sample_path: self.sample_path.clone(),
            idx: self.idx,
            len: self.len,
            name: self.name.clone(),
        }
    }

    /// Velocity under the playhead.
    pub fn current_velocity(&self) -> (r: u8)
        requires
            self.wf(),
        ensures
            r == self@.slots[self@.idx as int],
            r <= MAX_VELOCITY,
    {
        assert(self@.slots[self.idx as int] == self.slots@[self.idx as int].velocity);
        self.slots[self.idx].velocity
    }

    /// Moves the playhead one slot on, wrapping at the end.
    pub fn advance(&mut self)
        requires
            old(self).wf(),
        ensures
            final(self).wf(),
            final(self)@ == old(self)@.advanced(),
    {
        self.idx = (self.idx + 1) % self.len;
    }

    /// Puts the playhead on the first slot.
    pub fn reset_playhead(&mut self)
        requires
            old(self).wf(),
        ensures
            final(self).wf(),
            final(self)@ == (TrackModel { idx: 0, ..old(self)@ }),
    {
        self.idx = 0;
    }

    /// Silences every slot.
    pub fn reset_slots(&mut self)
        requires
            old(self).wf(),
        ensures
            final(self).wf(),
            final(self)@ == (TrackModel { slots: zeros(old(self)@.len()), ..old(self)@ }),
    {
        let mut i: usize = 0;
        while i < self.slots.len()
            invariant
                0 <= i <= self.slots.len(),
                self.slots.len() == old(self).slots.len(),
                self.len == old(self).len,
                self.idx == old(self).idx,
                self.sample_path == old(self).sample_path,
                self.name == old(self).name,
                forall|j: int| 0 <= j < i ==> self.slots@[j].velocity == 0,
            decreases self.slots.len() - i,
        {
            self.slots.set(i, Slot { velocity: 0 });
            i = i + 1;
        }
        assert(self@.slots =~= zeros(old(self)@.len()));
    }

    /// Resizes to `len` slots: new slots are silent, slots beyond `len` are
    /// dropped and the playhead becomes `idx mod len`.
    pub fn set_len(&mut self, len: usize)
        requires
            old(self).wf(),
            1 <= len <= MAX_LEN,
        ensures
            final(self).wf(),
            final(self)@ == (TrackModel {
                slots: resized(old(self)@.slots, len as nat),
                idx: (old(self)@.idx % len as nat) as nat,
                ..old(self)@
            }),
    {
        if len > self.len {
            while self.slots.len() < len
                invariant
                    old(self).slots.len() <= self.slots.len() <= len,
                    self.len == old(self).len,
                    self.idx == old(self).idx,
                    self.sample_path == old(self).sample_path,
                    self.name == old(self).name,
                    forall|j: int|
                        0 <= j < self.slots.len() ==> self.slots@[j] == (if j < old(
                            self,
                        ).slots.len() {
                            old(self).slots@[j]
                        } else {
                            Slot { velocity: 0 }
                        }),
                decreases len - self.slots.len(),
            {
                self.slots.push(Slot { velocity: 0 });
            }
        } else {
            self.slots.truncate(len);
        }
        self.idx = self.idx % len;
        self.len = len;
        assert(self@.slots =~= resized(old(self)@.slots, len as nat));
    }

    /// Sets the velocity of slot `i`.
    pub fn set_slot(&mut self, i: usize, velocity: u8)
        requires
            old(self).wf(),
            i < old(self).len,
            velocity <= MAX_VELOCITY,
        ensures
            final(self).wf(),
            final(self)@ == (TrackModel {
                slots: old(self)@.slots.update(i as int, velocity),
                ..old(self)@
            }),
    {
        self.slots.set(i, Slot { velocity });
        assert(self@.slots =~= old(self)@.slots.update(i as int, velocity));
    }

    /// Sets the first slots to `velocities`; entries beyond the track's
    /// length are ignored.
    pub fn set_slots(&mut self, velocities: &Vec<u8>)
        requires
            old(self).wf(),
            valid_velocities(velocities@),
        ensures
            final(self).wf(),
            final(self)@ == (TrackModel {
                slots: overwritten(old(self)@.slots, velocities@),
                ..old(self)@
            }),
    {
        let mut i: usize = 0;
        while i < velocities.len() && i < self.slots.len()
            invariant
                0 <= i,
                self.slots.len() == old(self).slots.len(),
                self.len == old(self).len,
                self.idx == old(self).idx,
                self.sample_path == old(self).sample_path,
                self.name == old(self).name,
                forall|j: int| 0 <= j < i ==> self.slots@[j].velocity == velocities@[j],
                forall|j: int|
                    i <= j < self.slots.len() ==> self.slots@[j] == old(self).slots@[j],
                i <= velocities.len(),
                i <= self.slots.len(),
            decreases velocities.len() - i,
        {
            let v = velocities[i];
            self.slots.set(i, Slot { velocity: v });
            assert(self.slots@[i as int].velocity == velocities@[i as int]);
            i = i + 1;
        }
        assert(self@.slots =~= overwritten(old(self)@.slots, velocities@));
    }

    /// Binds the track to another sample; the name follows the path.
    pub fn set_sample(&mut self, sample_path: String)
        requires
            old(self).wf(),
        ensures
            final(self).wf(),
            final(self)@ == (TrackModel {
                sample_path: sample_path@,
                name: track_name_of(sample_path@),
                ..old(self)@
            }),
    {
        self.name = track_name(sample_path.as_str());
        self.sample_path = sample_path;
    }
}

} // verus!
