//! Decoding of controller requests into commands.
use vstd::prelude::*;
use vstd::string::*;
use crate::timing::Division;
use crate::message::Command;

verus! {

/// Why a request could not be turned into a command.
#[derive(Clone, Copy, Debug, PartialEq, Eq, Structural)]
pub enum DecodeError {
    /// The request names no known command.
    InvalidCommandType,
    /// An argument the command needs is absent.
    MissingArgument,
    /// An argument does not fit the command's value range.
    OutOfRange,
}

/// A decoded request argument that may be absent or out of range.
pub open spec fn spec_to_usize(v: Option<i64>) -> Result<usize, DecodeError> {
    match v {
        None => Err(DecodeError::MissingArgument),
        Some(x) => if 0 <= x && x <= usize::MAX {
            Ok(x as usize)
        } else {
            Err(DecodeError::OutOfRange)
        },
    }
}

/// An index argument.
pub fn to_usize(v: Option<i64>) -> (r: Result<usize, DecodeError>)
    ensures
        r == spec_to_usize(v),
{
    match v {
        None => Err(DecodeError::MissingArgument),
        Some(x) => {
            if x >= 0 && (x as u64) <= (usize::MAX as u64) {
                Ok(x as usize)
            } else {
                Err(DecodeError::OutOfRange)
            }
        },
    }
}

pub open spec fn spec_to_u8(v: Option<i64>) -> Result<u8, DecodeError> {
    match v {
        None => Err(DecodeError::MissingArgument),
        Some(x) => if 0 <= x <= u8::MAX {
            Ok(x as u8)
        } else {
            Err(DecodeError::OutOfRange)
        },
    }
}

/// A byte-sized argument.
pub fn to_u8(v: Option<i64>) -> (r: Result<u8, DecodeError>)
    ensures
        r == spec_to_u8(v),
{
    match v {
        None => Err(DecodeError::MissingArgument),
        Some(x) => {
            if 0 <= x && x <= 255 {
                Ok(x as u8)
            } else {
                Err(DecodeError::OutOfRange)
            }
        },
    }
}

pub open spec fn spec_to_u16(v: Option<i64>) -> Result<u16, DecodeError> {
    match v {
        None => Err(DecodeError::MissingArgument),
        Some(x) => if 0 <= x <= u16::MAX {
            Ok(x as u16)
        } else {
            Err(DecodeError::OutOfRange)
        },
    }
}

/// A tempo argument.
pub fn to_u16(v: Option<i64>) -> (r: Result<u16, DecodeError>)
    ensures
        r == spec_to_u16(v),
{
    match v {
        None => Err(DecodeError::MissingArgument),
        Some(x) => {
            if 0 <= x && x <= 65535 {
                Ok(x as u16)
            } else {
                Err(DecodeError::OutOfRange)
            }
        },
    }
}

pub open spec fn spec_to_division(v: Option<i64>) -> Result<Division, DecodeError> {
    match v {
        None => Err(DecodeError::MissingArgument),
        Some(x) => match Division::spec_from_value(x as int) {
            Some(d) => Ok(d),
            None => Err(DecodeError::OutOfRange),
        },
    }
}

/// A division argument: one of the allowed beats-per-bar values.
pub fn to_division(v: Option<i64>) -> (r: Result<Division, DecodeError>)
    ensures
        r == spec_to_division(v),
{
    match v {
        None => Err(DecodeError::MissingArgument),
        Some(x) => match Division::from_value(x) {
            Some(d) => Ok(d),
            None => Err(DecodeError::OutOfRange),
        },
    }
}

pub open spec fn spec_to_text(v: Option<String>) -> Result<String, DecodeError> {
    match v {
        None => Err(DecodeError::MissingArgument),
        Some(s) => Ok(s),
    }
}

/// A text argument.
pub fn to_text(v: &Option<String>) -> (r: Result<String, DecodeError>)
    ensures
        r == spec_to_text(*v),
{
    match v {
        None => Err(DecodeError::MissingArgument),
        Some(s) => Ok(s.clone()),
    }
}

/// The arguments of a browser request, by the names of the command
/// arguments. Absent fields are `None`.
#[derive(Clone, Debug, Default)]
pub struct WebArgs {
    pub bpm: Option<i64>,
    pub division: Option<i64>,
    pub swing: Option<i64>,
    pub track_id: Option<i64>,
    pub slot_id: Option<i64>,
    pub velocity: Option<i64>,
    pub new_len: Option<i64>,
    pub id: Option<i64>,
    pub n: Option<i64>,
    pub sample_path: Option<String>,
    pub filename: Option<String>,
}

/// Whether `a` and `b` hold the same characters.
pub fn str_eq(a: &str, b: &str) -> (r: bool)
    ensures
        r == (a@ == b@),
{
    let n = a.unicode_len();
    if n != b.unicode_len() {
        return false;
    }
    let mut i: usize = 0;
    while i < n
        invariant
            0 <= i <= n,
            n == a@.len(),
            n == b@.len(),
            forall|j: int| 0 <= j < i ==> a@[j] == b@[j],
        decreases n - i,
    {
        if a.get_char(i) != b.get_char(i) {
            return false;
        }
        i = i + 1;
    }
    assert(a@ =~= b@);
    true
}

/// The command a browser request of type `kind` with arguments `a` asks
/// for.
pub open spec fn web_command_of(kind: Seq<char>, a: WebArgs) -> Result<Command, DecodeError> {
    if kind == "play_sequencer"@ {
        Ok(Command::PlaySequencer)
    } else if kind == "stop_sequencer"@ {
        Ok(Command::StopSequencer)
    } else if kind == "set_tempo"@ {
        match spec_to_u16(a.bpm) {
            Ok(b) => Ok(Command::SetTempo(b)),
            Err(e) => Err(e),
        }
    } else if kind == "set_division"@ {
        match spec_to_division(a.division) {
            Ok(d) => Ok(Command::SetDivision(d)),
            Err(e) => Err(e),
        }
    } else if kind == "set_swing"@ {
        match spec_to_u8(a.swing) {
            Ok(s) => Ok(Command::SetSwing(s)),
            Err(e) => Err(e),
        }
    } else if kind == "play_sound"@ {
        match (spec_to_usize(a.track_id), spec_to_u8(a.velocity)) {
            (Ok(t), Ok(v)) => Ok(Command::PlaySound(t, v)),
            (Err(e), _) => Err(e),
            (_, Err(e)) => Err(e),
        }
    } else if kind == "set_slot_velocity"@ {
        match (spec_to_usize(a.track_id), spec_to_usize(a.slot_id), spec_to_u8(a.velocity)) {
            (Ok(t), Ok(s), Ok(v)) => Ok(Command::SetSlotVelocity(t, s, v)),
            (Err(e), _, _) => Err(e),
            (_, Err(e), _) => Err(e),
            (_, _, Err(e)) => Err(e),
        }
    } else if kind == "set_track_length"@ {
        match (spec_to_usize(a.track_id), spec_to_usize(a.new_len)) {
            (Ok(t), Ok(n)) => Ok(Command::SetTrackLength(t, n)),
            (Err(e), _) => Err(e),
            (_, Err(e)) => Err(e),
        }
    } else if kind == "add_pattern"@ {
        Ok(Command::AddPattern)
    } else if kind == "remove_pattern"@ {
        match spec_to_usize(a.id) {
            Ok(i) => Ok(Command::RemovePattern(i)),
            Err(e) => Err(e),
        }
    } else if kind == "select_pattern"@ {
        match spec_to_usize(a.id) {
            Ok(i) => Ok(Command::SelectPattern(i)),
            Err(e) => Err(e),
        }
    } else if kind == "set_pattern_length"@ {
        match spec_to_usize(a.n) {
            Ok(n) => Ok(Command::SetPatternLength(n)),
            Err(e) => Err(e),
        }
    } else if kind == "save_pattern"@ {
        Ok(Command::SavePattern)
    } else if kind == "load_pattern"@ {
        match spec_to_text(a.filename) {
            Ok(f) => Ok(Command::LoadPattern(f)),
            Err(e) => Err(e),
        }
    } else if kind == "list_patterns"@ {
        Ok(Command::ListPatterns)
    } else if kind == "list_samples"@ {
        Ok(Command::ListSamples)
    } else if kind == "add_track"@ {
        match spec_to_text(a.sample_path) {
            Ok(p) => Ok(Command::AddTrack(p)),
            Err(e) => Err(e),
        }
    } else if kind == "set_track_sample"@ {
        match (spec_to_usize(a.track_id), spec_to_text(a.sample_path)) {
            (Ok(t), Ok(p)) => Ok(Command::SetTrackSample(t, p)),
            (Err(e), _) => Err(e),
            (_, Err(e)) => Err(e),
        }
    } else {
        Err(DecodeError::InvalidCommandType)
    }
}

/// The command that a browser request of type `kind` with arguments `args`
/// asks for.
pub fn web_command(kind: &str, args: &WebArgs) -> (r: Result<Command, DecodeError>)
    ensures
        r == web_command_of(kind@, *args),
{
    if str_eq(kind, "play_sequencer") {
        Ok(Command::PlaySequencer)
    } else if str_eq(kind, "stop_sequencer") {
        Ok(Command::StopSequencer)
    } else if str_eq(kind, "set_tempo") {
        match to_u16(args.bpm) {
            Ok(b) => Ok(Command::SetTempo(b)),
            Err(e) => Err(e),
        }
    } else if str_eq(kind, "set_division") {
        match to_division(args.division) {
            Ok(d) => Ok(Command::SetDivision(d)),
            Err(e) => Err(e),
        }
    } else if str_eq(kind, "set_swing") {
        match to_u8(args.swing) {
            Ok(s) => Ok(Command::SetSwing(s)),
            Err(e) => Err(e),
        }
    } else if str_eq(kind, "play_sound") {
        match (to_usize(args.track_id), to_u8(args.velocity)) {
            (Ok(t), Ok(v)) => Ok(Command::PlaySound(t, v)),
            (Err(e), _) => Err(e),
            (_, Err(e)) => Err(e),
        }
    } else if str_eq(kind, "set_slot_velocity") {
        match (to_usize(args.track_id), to_usize(args.slot_id), to_u8(args.velocity)) {
            (Ok(t), Ok(s), Ok(v)) => Ok(Command::SetSlotVelocity(t, s, v)),
            (Err(e), _, _) => Err(e),
            (_, Err(e), _) => Err(e),
            (_, _, Err(e)) => Err(e),
        }
    } else if str_eq(kind, "set_track_length") {
        match (to_usize(args.track_id), to_usize(args.new_len)) {
            (Ok(t), Ok(n)) => Ok(Command::SetTrackLength(t, n)),
            (Err(e), _) => Err(e),
            (_, Err(e)) => Err(e),
        }
    } else if str_eq(kind, "add_pattern") {
        Ok(Command::AddPattern)
    } else if str_eq(kind, "remove_pattern") {
        match to_usize(args.id) {
            Ok(i) => Ok(Command::RemovePattern(i)),
            Err(e) => Err(e),
        }
    } else if str_eq(kind, "select_pattern") {
        match to_usize(args.id) {
            Ok(i) => Ok(Command::SelectPattern(i)),
            Err(e) => Err(e),
        }
    } else if str_eq(kind, "set_pattern_length") {
        match to_usize(args.n) {
            Ok(n) => Ok(Command::SetPatternLength(n)),
            Err(e) => Err(e),
        }
    } else if str_eq(kind, "save_pattern") {
        Ok(Command::SavePattern)
    } else if str_eq(kind, "load_pattern") {
        match to_text(&args.filename) {
            Ok(f) => Ok(Command::LoadPattern(f)),
            Err(e) => Err(e),
        }
    } else if str_eq(kind, "list_patterns") {
        Ok(Command::ListPatterns)
    } else if str_eq(kind, "list_samples") {
        Ok(Command::ListSamples)
    } else if str_eq(kind, "add_track") {
        match to_text(&args.sample_path) {
            Ok(p) => Ok(Command::AddTrack(p)),
            Err(e) => Err(e),
        }
    } else if str_eq(kind, "set_track_sample") {
        match (to_usize(args.track_id), to_text(&args.sample_path)) {
            (Ok(t), Ok(p)) => Ok(Command::SetTrackSample(t, p)),
            (Err(e), _) => Err(e),
            (_, Err(e)) => Err(e),
        }
    } else {
        Err(DecodeError::InvalidCommandType)
    }
}


/// The argument of a binary-channel request; which one a command needs
/// depends on its type.
#[derive(Clone, Debug)]
pub enum ProtoArgs {
    Tempo(u32),
    Division(i64),
    PlaySoundArgs { track_index: u64, velocity: u32 },
    SlotArgs { track_index: u64, slot_index: u64, velocity: u32 },
    TrackLengthArgs { track_index: u64, length: u64 },
    PatternIndex(u64),
    PatternLength(u64),
    PatternFname(String),
    Swing(u32),
    SamplePath(String),
    TrackSampleArgs { track_index: u64, sample_path: String },
}

/// A binary-channel request: a command type code and its argument.
///
/// Codes: 1 play, 2 stop, 3 tempo, 4 division, 5 play sound, 6 slot
/// velocity, 7 track length, 8 add pattern, 9 remove pattern, 10 select
/// pattern, 11 pattern length, 12 save, 13 load, 14 list patterns, 15 list
/// samples, 16 swing, 17 add track, 18 track sample; 0 is unspecified.
#[derive(Clone, Debug)]
pub struct CommandMessage {
    pub command_type: i32,
    pub args: Option<ProtoArgs>,
}

pub open spec fn spec_index(v: u64) -> Result<usize, DecodeError> {
    if v <= usize::MAX {
        Ok(v as usize)
    } else {
        Err(DecodeError::OutOfRange)
    }
}

fn index(v: u64) -> (r: Result<usize, DecodeError>)
    ensures
        r == spec_index(v),
{
    if v <= usize::MAX as u64 {
        Ok(v as usize)
    } else {
        Err(DecodeError::OutOfRange)
    }
}

pub open spec fn spec_byte(v: u32) -> Result<u8, DecodeError> {
    if v <= u8::MAX {
        Ok(v as u8)
    } else {
        Err(DecodeError::OutOfRange)
    }
}

fn byte(v: u32) -> (r: Result<u8, DecodeError>)
    ensures
        r == spec_byte(v),
{
    if v <= 255 {
        Ok(v as u8)
    } else {
        Err(DecodeError::OutOfRange)
    }
}

/// The command that a binary-channel request asks for. A type code outside
/// the table is `InvalidCommandType`; an absent argument, or one of another
/// kind than the command needs, is `MissingArgument`; a value that does
/// not fit the command is `OutOfRange`.
pub open spec fn proto_command_of(m: CommandMessage) -> Result<Command, DecodeError> {
    let c = m.command_type;
    if c == 1 {
        Ok(Command::PlaySequencer)
    } else if c == 2 {
        Ok(Command::StopSequencer)
    } else if c == 3 {
        match m.args {
            Some(ProtoArgs::Tempo(t)) => if t <= u16::MAX {
                Ok(Command::SetTempo(t as u16))
            } else {
                Err(DecodeError::OutOfRange)
            },
            _ => Err(DecodeError::MissingArgument),
        }
    } else if c == 4 {
        match m.args {
            Some(ProtoArgs::Division(d)) => match spec_to_division(Some(d)) {
                Ok(d) => Ok(Command::SetDivision(d)),
                Err(e) => Err(e),
            },
            _ => Err(DecodeError::MissingArgument),
        }
    } else if c == 5 {
        match m.args {
            Some(ProtoArgs::PlaySoundArgs { track_index, velocity }) => match (
                spec_index(track_index),
                spec_byte(velocity),
            ) {
                (Ok(t), Ok(v)) => Ok(Command::PlaySound(t, v)),
                _ => Err(DecodeError::OutOfRange),
            },
            _ => Err(DecodeError::MissingArgument),
        }
    } else if c == 6 {
        match m.args {
            Some(ProtoArgs::SlotArgs { track_index, slot_index, velocity }) => match (
                spec_index(track_index),
                spec_index(slot_index),
                spec_byte(velocity),
            ) {
                (Ok(t), Ok(s), Ok(v)) => Ok(Command::SetSlotVelocity(t, s, v)),
                _ => Err(DecodeError::OutOfRange),
            },
            _ => Err(DecodeError::MissingArgument),
        }
    } else if c == 7 {
        match m.args {
            Some(ProtoArgs::TrackLengthArgs { track_index, length }) => match (
                spec_index(track_index),
                spec_index(length),
            ) {
                (Ok(t), Ok(n)) => Ok(Command::SetTrackLength(t, n)),
                _ => Err(DecodeError::OutOfRange),
            },
            _ => Err(DecodeError::MissingArgument),
        }
    } else if c == 8 {
        Ok(Command::AddPattern)
    } else if c == 9 || c == 10 {
        match m.args {
            Some(ProtoArgs::PatternIndex(i)) => match spec_index(i) {
                Ok(i) => if c == 9 {
                    Ok(Command::RemovePattern(i))
                } else {
                    Ok(Command::SelectPattern(i))
                },
                Err(e) => Err(e),
            },
            _ => Err(DecodeError::MissingArgument),
        }
    } else if c == 11 {
        match m.args {
            Some(ProtoArgs::PatternLength(n)) => match spec_index(n) {
                Ok(n) => Ok(Command::SetPatternLength(n)),
                Err(e) => Err(e),
            },
            _ => Err(DecodeError::MissingArgument),
        }
    } else if c == 12 {
        Ok(Command::SavePattern)
    } else if c == 13 {
        match m.args {
            Some(ProtoArgs::PatternFname(f)) => Ok(Command::LoadPattern(f)),
            _ => Err(DecodeError::MissingArgument),
        }
    } else if c == 14 {
        Ok(Command::ListPatterns)
    } else if c == 15 {
        Ok(Command::ListSamples)
    } else if c == 16 {
        match m.args {
            Some(ProtoArgs::Swing(s)) => match spec_byte(s) {
                Ok(s) => Ok(Command::SetSwing(s)),
                Err(e) => Err(e),
            },
            _ => Err(DecodeError::MissingArgument),
        }
    } else if c == 17 {
        match m.args {
            Some(ProtoArgs::SamplePath(p)) => Ok(Command::AddTrack(p)),
            _ => Err(DecodeError::MissingArgument),
        }
    } else if c == 18 {
        match m.args {
            Some(ProtoArgs::TrackSampleArgs { track_index, sample_path }) => match spec_index(
                track_index,
            ) {
                Ok(t) => Ok(Command::SetTrackSample(t, sample_path)),
                Err(e) => Err(e),
            },
            _ => Err(DecodeError::MissingArgument),
        }
    } else {
        Err(DecodeError::InvalidCommandType)
    }
}

/// The command that a binary-channel request asks for.
pub fn proto_message_to_command(m: &CommandMessage) -> (r: Result<Command, DecodeError>)
    ensures
        r == proto_command_of(*m),
{
    let c = m.command_type;
    if c == 1 {
        Ok(Command::PlaySequencer)
    } else if c == 2 {
        Ok(Command::StopSequencer)
    } else if c == 3 {
        match &m.args {
            Some(ProtoArgs::Tempo(t)) => if *t <= 65535 {
                Ok(Command::SetTempo(*t as u16))
            } else {
                Err(DecodeError::OutOfRange)
            },
            _ => Err(DecodeError::MissingArgument),
        }
    } else if c == 4 {
        match &m.args {
            Some(ProtoArgs::Division(d)) => match to_division(Some(*d)) {
                Ok(d) => Ok(Command::SetDivision(d)),
                Err(e) => Err(e),
            },
            _ => Err(DecodeError::MissingArgument),
        }
    } else if c == 5 {
        match &m.args {
            Some(ProtoArgs::PlaySoundArgs { track_index, velocity }) => match (
                index(*track_index),
                byte(*velocity),
            ) {
                (Ok(t), Ok(v)) => Ok(Command::PlaySound(t, v)),
                _ => Err(DecodeError::OutOfRange),
            },
            _ => Err(DecodeError::MissingArgument),
        }
    } else if c == 6 {
        match &m.args {
            Some(ProtoArgs::SlotArgs { track_index, slot_index, velocity }) => match (
                index(*track_index),
                index(*slot_index),
                byte(*velocity),
            ) {
                (Ok(t), Ok(s), Ok(v)) => Ok(Command::SetSlotVelocity(t, s, v)),
                _ => Err(DecodeError::OutOfRange),
            },
            _ => Err(DecodeError::MissingArgument),
        }
    } else if c == 7 {
        match &m.args {
            Some(ProtoArgs::TrackLengthArgs { track_index, length }) => match (
                index(*track_index),
                index(*length),
            ) {
                (Ok(t), Ok(n)) => Ok(Command::SetTrackLength(t, n)),
                _ => Err(DecodeError::OutOfRange),
            },
            _ => Err(DecodeError::MissingArgument),
        }
    } else if c == 8 {
        Ok(Command::AddPattern)
    } else if c == 9 || c == 10 {
        match &m.args {
            Some(ProtoArgs::PatternIndex(i)) => match index(*i) {
                Ok(i) => if c == 9 {
                    Ok(Command::RemovePattern(i))
                } else {
                    Ok(Command::SelectPattern(i))
                },
                Err(e) => Err(e),
            },
            _ => Err(DecodeError::MissingArgument),
        }
    } else if c == 11 {
        match &m.args {
            Some(ProtoArgs::PatternLength(n)) => match index(*n) {
                Ok(n) => Ok(Command::SetPatternLength(n)),
                Err(e) => Err(e),
            },
            _ => Err(DecodeError::MissingArgument),
        }
    } else if c == 12 {
        Ok(Command::SavePattern)
    } else if c == 13 {
        match &m.args {
            Some(ProtoArgs::PatternFname(f)) => Ok(Command::LoadPattern(f.clone())),
            _ => Err(DecodeError::MissingArgument),
        }
    } else if c == 14 {
        Ok(Command::ListPatterns)
    } else if c == 15 {
        Ok(Command::ListSamples)
    } else if c == 16 {
        match &m.args {
            Some(ProtoArgs::Swing(s)) => match byte(*s) {
                Ok(s) => Ok(Command::SetSwing(s)),
                Err(e) => Err(e),
            },
            _ => Err(DecodeError::MissingArgument),
        }
    } else if c == 17 {
        match &m.args {
            Some(ProtoArgs::SamplePath(p)) => Ok(Command::AddTrack(p.clone())),
            _ => Err(DecodeError::MissingArgument),
        }
    } else if c == 18 {
        match &m.args {
            Some(ProtoArgs::TrackSampleArgs { track_index, sample_path }) => match index(
                *track_index,
            ) {
                Ok(t) => Ok(Command::SetTrackSample(t, sample_path.clone())),
                Err(e) => Err(e),
            },
            _ => Err(DecodeError::MissingArgument),
        }
    } else {
        Err(DecodeError::InvalidCommandType)
    }
}

/// Velocity of a sound auditioned from the keyboard.
pub const KEY_VELOCITY: u8 = 127;

/// The command that key `c` asks for in the terminal controller: a digit
/// `d` auditions track `d` when the pattern has that many tracks, `p`
/// toggles the transport, anything else asks for nothing.
pub open spec fn key_command_of(c: char, playing: bool, n_tracks: usize) -> Option<Command> {
    if '0' <= c <= '9' && (c as u32 - '0' as u32) < n_tracks {
        Some(Command::PlaySound((c as u32 - '0' as u32) as usize, KEY_VELOCITY))
    } else if c == 'p' {
        if playing {
            Some(Command::StopSequencer)
        } else {
            Some(Command::PlaySequencer)
        }
    } else {
        None
    }
}

/// The command that key `c` asks for, given whether the engine plays and
/// how many tracks the current pattern has.
pub fn key_command(c: char, playing: bool, n_tracks: usize) -> (r: Option<Command>)
    ensures
        r == key_command_of(c, playing, n_tracks),
{
    if '0' <= c && c <= '9' && ((c as u32 - '0' as u32) as usize) < n_tracks {
        Some(Command::PlaySound((c as u32 - '0' as u32) as usize, KEY_VELOCITY))
    } else if c == 'p' {
        if playing {
            Some(Command::StopSequencer)
        } else {
            Some(Command::PlaySequencer)
        }
    } else {
        None
    }
}

} // verus!
