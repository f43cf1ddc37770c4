//! The saved form of a pattern, and the names of saved files.
use vstd::prelude::*;
use vstd::string::*;
use crate::timing::{Division, MAX_VELOCITY};
use crate::track::{Slot, Track, TrackModel, MAX_LEN, valid_velocities, track_name, track_name_of};
use crate::pattern::{ChokeGrp, Pattern, PatternModel};
use crate::context::Context;
use crate::message::{Effect, MIDI_START};

verus! {

/// What is saved of a track: its velocities and its sample path.
#[derive(Clone, Debug)]
pub struct SavedTrack {
    pub slots: Vec<Slot>,
    pub sample_path: String,
}

/// What is saved of a pattern: its tracks, choke groups and division.
#[derive(Clone, Debug)]
pub struct SavedPattern {
    pub tracks: Vec<SavedTrack>,
    pub choke_grps: Vec<ChokeGrp>,
    pub division: Division,
}

/// The saved form of a pattern, as mathematics: each track as its
/// velocities and sample path.
pub struct SavedModel {
    pub tracks: Seq<(Seq<u8>, Seq<char>)>,
    pub choke_grps: Seq<Seq<usize>>,
    pub division: Division,
}

impl View for SavedTrack {
    type V = (Seq<u8>, Seq<char>);

    open spec fn view(&self) -> (Seq<u8>, Seq<char>) {
        (self.slots@.map_values(|s: Slot| s.velocity), self.sample_path@)
    }
}

impl View for SavedPattern {
    type V = SavedModel;

    open spec fn view(&self) -> SavedModel {
        SavedModel {
            tracks: self.tracks@.map_values(|t: SavedTrack| t@),
            choke_grps: self.choke_grps@.map_values(|g: ChokeGrp| g@),
            division: self.division,
        }
    }
}

/// The saved form of a track.
pub open spec fn saved_track_of(t: TrackModel) -> (Seq<u8>, Seq<char>) {
    (t.slots, t.sample_path)
}

/// The saved forms of `tracks`.
pub open spec fn saved_tracks_of(tracks: Seq<TrackModel>) -> Seq<(Seq<u8>, Seq<char>)> {
    tracks.map_values(|t: TrackModel| saved_track_of(t))
}

/// The saved form of a pattern.
pub open spec fn saved_of(p: PatternModel) -> SavedModel {
    SavedModel {
        tracks: saved_tracks_of(p.tracks),
        choke_grps: p.choke_grps,
        division: p.division,
    }
}

/// Whether a saved track can be restored: its length is in `[1, MAX_LEN]`
/// and its velocities are valid.
pub open spec fn loadable(t: (Seq<u8>, Seq<char>)) -> bool {
    1 <= t.0.len() <= MAX_LEN && valid_velocities(t.0)
}

/// The track restored from a saved one, its playhead on the first slot.
pub open spec fn restored_track(t: (Seq<u8>, Seq<char>)) -> TrackModel {
    TrackModel { slots: t.0, sample_path: t.1, name: track_name_of(t.1), idx: 0 }
}

/// The tracks restored from the first `n` saved tracks, skipping those that
/// cannot be restored.
pub open spec fn restored_tracks(ts: Seq<(Seq<u8>, Seq<char>)>, n: nat) -> Seq<TrackModel>
    decreases n,
{
    if n == 0 {
        Seq::empty()
    } else {
        let prev = restored_tracks(ts, (n - 1) as nat);
        if loadable(ts[n - 1]) {
            prev.push(restored_track(ts[n - 1]))
        } else {
            prev
        }
    }
}

/// The pattern `p` once `s` is loaded into it: the restorable saved tracks,
/// the saved choke groups and division, and the name of `p`.
pub open spec fn loaded_into(p: PatternModel, s: SavedModel) -> PatternModel {
    PatternModel {
        tracks: restored_tracks(s.tracks, s.tracks.len()),
        choke_grps: s.choke_grps,
        division: s.division,
        name: p.name,
    }
}

impl SavedTrack {
    /// The saved form of `t`.
    pub fn from_track(t: &Track) -> (r: SavedTrack)
        ensures
            r@ == saved_track_of(t@),
    {
        let c = t.copy();
        SavedTrack { slots: c.slots, sample_path: c.sample_path }
    }

    /// The track restored from this saved one.
    pub fn to_track(&self) -> (r: Track)
        requires
            loadable(self@),
        ensures
            r.wf(),
            r@ == restored_track(self@),
    {
        let mut slots: Vec<Slot> = Vec::new();
        let mut i: usize = 0;
        while i < self.slots.len()
            invariant
                0 <= i <= self.slots.len(),
                slots@ == self.slots@.subrange(0, i as int),
            decreases self.slots.len() - i,
        {
            slots.push(self.slots[i]);
            i = i + 1;
        }
        assert(slots@ =~= self.slots@);
        let len = slots.len();
        let r = Track {
            slots,
            sample_path: self.sample_path.clone(),
            idx: 0,
            len,
            name: track_name(self.sample_path.as_str()),
        };
        assert(r@.slots =~= self@.0);
        r
    }

    /// Whether this saved track can be restored.
    pub fn is_loadable(&self) -> (r: bool)
        ensures
            r == loadable(self@),
    {
        let n = self.slots.len();
        if n < 1 || n > MAX_LEN {
            return false;
        }
        let mut i: usize = 0;
        while i < n
            invariant
                0 <= i <= n,
                n == self.slots.len(),
                forall|j: int| 0 <= j < i ==> #[trigger] self.slots@[j].velocity <= MAX_VELOCITY,
            decreases n - i,
        {
            if self.slots[i].velocity > MAX_VELOCITY {
                assert(self@.0[i as int] > MAX_VELOCITY);
                return false;
            }
            i = i + 1;
        }
        assert forall|j: int| 0 <= j < self@.0.len() implies #[trigger] self@.0[j] <= MAX_VELOCITY by {
            assert(self.slots@[j].velocity <= MAX_VELOCITY);
        }
        true
    }
}

impl Context {
    /// The saved form of the current pattern.
    pub fn saved_pattern(&self) -> (r: SavedPattern)
        requires
            self.wf(),
        ensures
            r@ == saved_of(self@.current()),
    {
        let p = &self.patterns[self.pattern_id];
        let mut tracks: Vec<SavedTrack> = Vec::new();
        let mut i: usize = 0;
        while i < p.tracks.len()
            invariant
                0 <= i <= p.tracks.len(),
                tracks@.len() == i,
                forall|j: int| 0 <= j < i ==> #[trigger] tracks@[j]@ == saved_track_of(p.tracks@[j]@),
            decreases p.tracks.len() - i,
        {
            tracks.push(SavedTrack::from_track(&p.tracks[i]));
            i = i + 1;
        }
        let copy = p.copy_choke_grps();
        let r = SavedPattern { tracks, choke_grps: copy, division: p.division };
        assert(r@.tracks =~= saved_of(self@.current()).tracks);
        assert(r@.choke_grps =~= saved_of(self@.current()).choke_grps);
        r
    }

    /// Replaces the tracks, choke groups and division of the current
    /// pattern by those of `saved`, keeping its name. Saved tracks that
    /// cannot be restored are skipped. While playing, asks for a MIDI Start
    /// to resynchronise other devices.
    pub fn load_pattern(&mut self, saved: &SavedPattern) -> (effects: Vec<Effect>)
        requires
            old(self).wf(),
        ensures
            final(self).wf(),
            final(self)@ == old(self)@.with_current(loaded_into(old(self)@.current(), saved@)),
            effects@ == (if old(self).playing {
                old(self)@.midi_effects(MIDI_START)
            } else {
                Seq::empty()
            }),
    {
        let ghost ts = saved@.tracks;
        let mut tracks: Vec<Track> = Vec::new();
        let mut i: usize = 0;
        while i < saved.tracks.len()
            invariant
                0 <= i <= saved.tracks.len(),
                ts == saved@.tracks,
                tracks@.map_values(|t: Track| t@) == restored_tracks(ts, i as nat),
                forall|j: int| 0 <= j < tracks.len() ==> #[trigger] tracks@[j].wf(),
            decreases saved.tracks.len() - i,
        {
            let st = &saved.tracks[i];
            assert(st@ == ts[i as int]);
            if st.is_loadable() {
                let t = st.to_track();
                let ghost before = tracks@;
                tracks.push(t);
                assert(tracks@.map_values(|t: Track| t@) =~= before.map_values(|t: Track| t@).push(t@));
            }
            i = i + 1;
        }
        let pid = self.pattern_id;
        let grps = copy_grps(&saved.choke_grps);
        self.patterns[pid].tracks = tracks;
        self.patterns[pid].choke_grps = grps;
        self.patterns[pid].division = saved.division;
        proof {
            assert(self.patterns@[pid as int]@ == loaded_into(old(self)@.current(), saved@)) by {
                assert(self.patterns@[pid as int]@.tracks =~= restored_tracks(ts, ts.len()));
                assert(self.patterns@[pid as int]@.choke_grps =~= saved@.choke_grps);
            }
            self.lemma_pattern_updated(old(self), pid as int);
        }
        if self.playing {
            self.enable_play()
        } else {
            Vec::new()
        }
    }
}

impl Pattern {
    /// A copy of the choke groups.
    pub fn copy_choke_grps(&self) -> (r: Vec<ChokeGrp>)
        ensures
            r@.map_values(|g: ChokeGrp| g@) == self@.choke_grps,
    {
        copy_grps(&self.choke_grps)
    }
}

/// A copy of `grps`.
pub fn copy_grps(grps: &Vec<ChokeGrp>) -> (r: Vec<ChokeGrp>)
    ensures
        r@.map_values(|g: ChokeGrp| g@) == grps@.map_values(|g: ChokeGrp| g@),
{
    let mut r: Vec<ChokeGrp> = Vec::new();
    let mut k: usize = 0;
    while k < grps.len()
        invariant
            0 <= k <= grps.len(),
            r@.len() == k,
            forall|j: int| 0 <= j < k ==> #[trigger] r@[j]@ == grps@[j]@,
        decreases grps.len() - k,
    {
        r.push(grps[k].clone_ids());
        k = k + 1;
    }
    assert(r@.map_values(|g: ChokeGrp| g@) =~= grps@.map_values(|g: ChokeGrp| g@));
    r
}

/// `s` with every space replaced by `_`.
pub open spec fn underscored(s: Seq<char>) -> Seq<char> {
    Seq::new(s.len(), |i: int| if s[i] == ' ' { '_' } else { s[i] })
}

/// The last `n` hexadecimal digits of `v`, lower case, most significant
/// first.
pub open spec fn hex_digits(v: nat, n: nat) -> Seq<char>
    decreases n,
{
    if n == 0 {
        Seq::empty()
    } else {
        hex_digits(v / 16, (n - 1) as nat) + "0123456789abcdef"@.subrange(
            (v % 16) as int,
            (v % 16) + 1 as int,
        )
    }
}

/// The lower-case hexadecimal form of `v`, without leading zeros.
pub open spec fn hex_form(v: nat) -> Seq<char>
    decreases v,
{
    if v < 16 {
        "0123456789abcdef"@.subrange(v as int, v + 1 as int)
    } else {
        hex_form(v / 16) + "0123456789abcdef"@.subrange((v % 16) as int, (v % 16) + 1 as int)
    }
}

/// The first eight characters of the hexadecimal form of `v`; a shorter
/// form is padded with leading zeros.
pub open spec fn leading_hex8(v: nat) -> Seq<char> {
    let h = hex_form(v);
    if h.len() >= 8 {
        h.subrange(0, 8)
    } else {
        hex_digits(0, (8 - h.len()) as nat) + h
    }
}

/// Name of the file that holds a pattern named `name` whose serialised
/// content hashes to `digest`: the name with spaces as `_`, a dash, the
/// first eight hexadecimal digits of the digest and `.json`.
pub open spec fn pattern_file_name_of(name: Seq<char>, digest: u64) -> Seq<char> {
    underscored(name) + "-"@ + leading_hex8(digest as nat) + ".json"@
}

/// `16` to the power `k`.
pub open spec fn pow16(k: nat) -> nat
    decreases k,
{
    if k == 0 {
        1
    } else {
        16 * pow16((k - 1) as nat)
    }
}

proof fn lemma_hex_form_len_upper(v: nat, k: nat)
    requires
        k >= 1,
        v < pow16(k),
    ensures
        1 <= hex_form(v).len() <= k,
    decreases v,
{
    reveal_strlit("0123456789abcdef");
    if v >= 16 {
        assert(k >= 2) by {
            if k == 1 {
                assert(pow16(1) == 16 * pow16(0));
            }
        }
        assert(v / 16 < pow16((k - 1) as nat));
        lemma_hex_form_len_upper(v / 16, (k - 1) as nat);
    }
}

proof fn lemma_hex_form_len_lower(v: nat, k: nat)
    requires
        k >= 1,
        v >= pow16((k - 1) as nat),
    ensures
        hex_form(v).len() >= k,
    decreases k,
{
    reveal_strlit("0123456789abcdef");
    if k >= 2 {
        let p = pow16((k - 2) as nat);
        assert(pow16((k - 1) as nat) == 16 * p);
        assert(p >= 1) by {
            lemma_pow16_positive((k - 2) as nat);
        }
        assert(v / 16 >= p);
        lemma_hex_form_len_lower(v / 16, (k - 1) as nat);
    }
}

proof fn lemma_pow16_positive(k: nat)
    ensures
        pow16(k) >= 1,
    decreases k,
{
    if k > 0 {
        lemma_pow16_positive((k - 1) as nat);
    }
}

/// The last `n` digits of `v` are its hexadecimal form padded with zeros,
/// when the form has at most `n` characters.
proof fn lemma_hex_digits_pad(v: nat, n: nat)
    requires
        hex_form(v).len() <= n,
    ensures
        hex_digits(v, n) == hex_digits(0, (n - hex_form(v).len()) as nat) + hex_form(v),
    decreases n,
{
    reveal_strlit("0123456789abcdef");
    let d = "0123456789abcdef"@.subrange((v % 16) as int, (v % 16) + 1 as int);
    assert(n >= 1);
    if v < 16 {
        assert(v / 16 == 0 && v % 16 == v);
        assert(hex_digits(v, n) == hex_digits(0, (n - 1) as nat) + d);
    } else {
        lemma_hex_digits_pad(v / 16, (n - 1) as nat);
        assert(hex_digits(v, n) =~= hex_digits(0, (n - hex_form(v).len()) as nat) + hex_form(v));
    }
}

/// Dropping the last hexadecimal digit keeps the first eight.
proof fn lemma_leading_hex8_shift(v: nat)
    requires
        v >= pow16(8),
    ensures
        leading_hex8(v) == leading_hex8(v / 16),
{
    reveal_with_fuel(pow16, 9);
    lemma_hex_form_len_lower(v / 16, 8);
    let h = hex_form(v / 16);
    let d = "0123456789abcdef"@.subrange((v % 16) as int, (v % 16) + 1 as int);
    assert(hex_form(v) == h + d);
    assert((h + d).subrange(0, 8) =~= h.subrange(0, 8));
}

fn append_hex(s: &mut String, v: u64, n: usize)
    ensures
        final(s)@ == old(s)@ + hex_digits(v as nat, n as nat),
    decreases n,
{
    if n == 0 {
        assert(old(s)@ + hex_digits(v as nat, 0) =~= old(s)@);
        return;
    }
    let digits = "0123456789abcdef";
    proof {
        reveal_strlit("0123456789abcdef");
    }
    append_hex(s, v / 16, n - 1);
    let d = (v % 16) as usize;
    s.append(digits.substring_char(d, d + 1));
    assert(old(s)@ + hex_digits((v / 16) as nat, (n - 1) as nat) + digits@.subrange(d as int, d + 1)
        =~= old(s)@ + hex_digits(v as nat, n as nat));
}

/// Name of the file that holds a pattern named `name` whose serialised
/// content hashes to `digest`.
pub fn pattern_file_name(name: &str, digest: u64) -> (r: String)
    ensures
        r@ == pattern_file_name_of(name@, digest),
{
    let mut s = String::new();
    let n = name.unicode_len();
    let mut i: usize = 0;
    while i < n
        invariant
            0 <= i <= n,
            n == name@.len(),
            s@ == underscored(name@).subrange(0, i as int),
        decreases n - i,
    {
        let c = name.get_char(i);
        proof {
            reveal_strlit("_");
        }
        if c == ' ' {
            s.append("_");
        } else {
            s.append(name.substring_char(i, i + 1));
        }
        assert(s@ =~= underscored(name@).subrange(0, i + 1));
        i = i + 1;
    }
    assert(s@ =~= underscored(name@));
    s.append("-");
    let mut v = digest;
    while v > 0xFFFF_FFFF
        invariant
            leading_hex8(v as nat) == leading_hex8(digest as nat),
        decreases v,
    {
        proof {
            reveal_with_fuel(pow16, 9);
            lemma_leading_hex8_shift(v as nat);
        }
        v = v / 16;
    }
    proof {
        reveal_with_fuel(pow16, 9);
        lemma_hex_form_len_upper(v as nat, 8);
        lemma_hex_digits_pad(v as nat, 8);
        let h = hex_form(v as nat);
        if h.len() == 8 {
            assert(hex_digits(0, 0) + h =~= h);
            assert(h.subrange(0, 8) =~= h);
        }
    }
    append_hex(&mut s, v, 8);
    s.append(".json");
    s
}


/// How a sample is listed: `kit/file` for a file in a kit folder, or the
/// bare file name for one at the top of the samples directory.
pub open spec fn sample_entry_of(kit: Option<Seq<char>>, file: Seq<char>) -> Seq<char> {
    match kit {
        Some(k) => k + "/"@ + file,
        None => file,
    }
}

/// How a sample is listed, given the kit folder that holds it, if any.
pub fn sample_entry(kit: Option<&str>, file: &str) -> (r: String)
    ensures
        r@ == sample_entry_of(
            match kit {
                Some(k) => Some(k@),
                None => None,
            },
            file@,
        ),
{
    match kit {
        Some(k) => {
            let mut s = String::from_str(k);
            s.append("/");
            s.append(file);
            s
        },
        None => String::from_str(file),
    }
}

/// One entry of the samples directory: a sample file at the top, or a kit
/// folder with the names of the sample files in it.
#[derive(Clone, Debug)]
pub enum SampleDirEntry {
    File(String),
    Kit(String, Vec<String>),
}

/// The names that the first `n` entries contribute to the sample listing:
/// a top-level file by its name, each file of a kit as `kit/file`.
pub open spec fn listing_of(entries: Seq<SampleDirEntry>, n: nat) -> Seq<Seq<char>>
    decreases n,
{
    if n == 0 {
        Seq::empty()
    } else {
        let prev = listing_of(entries, (n - 1) as nat);
        match entries[n - 1] {
            SampleDirEntry::File(f) => prev.push(sample_entry_of(None, f@)),
            SampleDirEntry::Kit(k, fs) => prev + fs@.map_values(
                |f: String| sample_entry_of(Some(k@), f@),
            ),
        }
    }
}

/// The sample listing of a samples directory, in the order of its entries.
pub fn sample_listing(entries: &Vec<SampleDirEntry>) -> (r: Vec<String>)
    ensures
        r@.map_values(|s: String| s@) == listing_of(entries@, entries@.len()),
{
    let mut r: Vec<String> = Vec::new();
    let mut i: usize = 0;
    while i < entries.len()
        invariant
            0 <= i <= entries.len(),
            r@.map_values(|s: String| s@) == listing_of(entries@, i as nat),
        decreases entries.len() - i,
    {
        let ghost before = r@.map_values(|s: String| s@);
        match &entries[i] {
            SampleDirEntry::File(f) => {
                let e = sample_entry(None, f.as_str());
                r.push(e);
                assert(r@.map_values(|s: String| s@) =~= before.push(e@));
            },
            SampleDirEntry::Kit(k, fs) => {
                let ghost kit = k@;
                let mut j: usize = 0;
                while j < fs.len()
                    invariant
                        0 <= j <= fs.len(),
                        kit == k@,
                        r@.map_values(|s: String| s@) == before + fs@.subrange(0, j as int).map_values(
                            |f: String| sample_entry_of(Some(kit), f@),
                        ),
                    decreases fs.len() - j,
                {
                    let e = sample_entry(Some(k.as_str()), fs[j].as_str());
                    let ghost prev = r@.map_values(|s: String| s@);
                    r.push(e);
                    assert(r@.map_values(|s: String| s@) =~= prev.push(e@));
                    assert(fs@.subrange(0, j + 1).map_values(|f: String| sample_entry_of(Some(kit), f@))
                        =~= fs@.subrange(0, j as int).map_values(|f: String| sample_entry_of(Some(kit), f@)).push(e@));
                    j = j + 1;
                    assert(r@.map_values(|s: String| s@) =~= before + fs@.subrange(0, j as int).map_values(
                        |f: String| sample_entry_of(Some(kit), f@),
                    ));
                }
                assert(fs@.subrange(0, j as int) =~= fs@);
            },
        }
        i = i + 1;
    }
    r
}

} // verus!
