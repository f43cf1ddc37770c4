//! Commands from controllers, effects for the caller, and state snapshots.
use vstd::prelude::*;
use crate::timing::Division;

verus! {

/// A request from a controller to change the engine.
#[derive(Clone, Debug)]
pub enum Command {
    PlaySequencer,
    StopSequencer,
    SetTempo(u16),
    PlaySound(usize, u8),
    SetSlotVelocity(usize, usize, u8),
    SetTrackLength(usize, usize),
    AddPattern,
    RemovePattern(usize),
    SelectPattern(usize),
    SetPatternLength(usize),
    SavePattern,
    LoadPattern(String),
    ListPatterns,
    ListSamples,
    SetDivision(Division),
    SetSwing(u8),
    AddTrack(String),
    SetTrackSample(usize, String),
    Unspecified,
}

impl Default for Command {
    fn default() -> (r: Command)
        ensures
            r is Unspecified,
    {
        Command::Unspecified
    }
}

/// Which listing a file state carries.
#[derive(Clone, Copy, Debug, PartialEq, Eq, Structural)]
pub enum FileType {
    Pattern,
    Sample,
}

/// An action the engine asks its caller to carry out.
#[derive(Clone, Copy, Debug, PartialEq, Eq, Structural)]
pub enum Effect {
    /// Enqueue a fresh playback of the track's sample at `velocity / 127`;
    /// when the track's queue then holds more than one item, skip the oldest.
    Trigger { track_id: usize, velocity: u8 },
    /// Skip the oldest item of the track's queue, silencing its tail.
    Choke { track_id: usize },
    /// Send one MIDI byte, when a MIDI connection is present.
    Midi(u8),
    /// Persist the current pattern, as given by `Context::saved_pattern`.
    SavePattern,
    /// Read the saved pattern named by the command and hand it to
    /// `Context::load_pattern`.
    LoadPattern,
    /// Broadcast the listing of the given kind.
    ListFiles(FileType),
}

impl Effect {
    pub open spec fn is_trigger(self) -> bool {
        self is Trigger
    }

    pub open spec fn is_choke(self) -> bool {
        self is Choke
    }
}

/// MIDI timing clock byte.
pub const MIDI_CLOCK: u8 = 0xF8;

/// MIDI start byte.
pub const MIDI_START: u8 = 0xFA;

/// MIDI stop byte.
pub const MIDI_STOP: u8 = 0xFC;

/// The current listing of saved patterns or of samples.
#[derive(Clone, Debug)]
pub struct FileState {
    pub file_type: FileType,
    pub files: Vec<String>,
}

/// Snapshot of one track.
#[derive(Clone, Debug, Default)]
pub struct TrackState {
    pub slots: Vec<u8>,
    pub name: String,
    pub len: usize,
    pub idx: usize,
    pub sample_path: String,
}

/// Snapshot of the engine, broadcast to every consumer. `latency` is in
/// nanoseconds.
#[derive(Clone, Debug, Default)]
pub struct SeqState {
    pub tempo: u16,
    pub trks: Vec<TrackState>,
    pub division: u8,
    pub default_len: usize,
    pub latency: u64,
    pub playing: bool,
    pub pattern_id: usize,
    pub pattern_len: usize,
    pub pattern_name: String,
    pub queued_pattern_id: usize,
    pub swing: u8,
}

/// What the engine broadcasts.
#[derive(Clone, Debug)]
pub enum StateUpdate {
    FileState(FileState),
    SeqState(SeqState),
}

} // verus!
