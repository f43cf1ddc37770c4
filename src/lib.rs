//! A step sequencer engine for sample-based percussion.
//!
//! The library holds the engine's state and its rules: tracks of velocity
//! slots, patterns with choke groups, the authoritative context, the command
//! dispatcher, the pulse scheduler and its latency compensation, the saved
//! form of patterns, and the decoding of controller requests. It performs
//! no I/O itself: every audible or outward action is returned as an
//! [`Effect`] for the caller to carry out.
pub mod timing;
pub mod track;
pub mod pattern;
pub mod message;
pub mod context;
pub mod scheduler;
pub mod persist;
pub mod snapshot;
pub mod laws;
pub mod protocol;

pub use timing::{Division, PPB, PPQN, MIN_TEMPO, MAX_TEMPO, MAX_SWING, MAX_VELOCITY, pulse_interval, beat_tick};
pub use track::{Slot, Track, TrackModel, MAX_LEN, track_name};
pub use pattern::{ChokeGrp, Pattern, PatternModel};
pub use message::{Command, Effect, FileType, FileState, TrackState, SeqState, StateUpdate, MIDI_CLOCK, MIDI_START, MIDI_STOP};
pub use context::{Context, ContextModel, DEFAULT_TRACK_LEN, DEFAULT_TEMPO};
pub use scheduler::Sequencer;
pub use persist::{SavedTrack, SavedPattern, pattern_file_name, sample_entry, sample_listing, SampleDirEntry};
pub use protocol::{DecodeError, WebArgs, CommandMessage, ProtoArgs, web_command, proto_message_to_command, key_command};
