//! Tempo, pulses and time division.
use vstd::prelude::*;

verus! {

/// Pulses per quarter note, the MIDI clock rate.
pub const PPQN: u8 = 24;

/// Pulses per bar (four quarter notes).
pub const PPB: u8 = 96;

/// Slowest accepted tempo, in beats per minute.
pub const MIN_TEMPO: u16 = 20;

/// Fastest accepted tempo, in beats per minute.
pub const MAX_TEMPO: u16 = 300;

/// Largest swing amount.
pub const MAX_SWING: u8 = 100;

/// Largest slot velocity.
pub const MAX_VELOCITY: u8 = 127;

/// Nanoseconds in one minute.
pub const NANOS_PER_MINUTE: u64 = 60_000_000_000;

/// The subdivision of a bar at which beats fire.
#[derive(Clone, Copy, Debug, PartialEq, Eq, Structural, Hash)]
pub enum Division {
    W,
    H,
    QD,
    Q,
    ED,
    E,
    SD,
    S,
    TD,
    T,
}

impl Division {
    /// Number of beats in one bar.
    pub open spec fn spec_value(self) -> u8 {
        match self {
            Division::W => 1,
            Division::H => 2,
            Division::QD => 3,
            Division::Q => 4,
            Division::ED => 6,
            Division::E => 8,
            Division::SD => 12,
            Division::S => 16,
            Division::TD => 24,
            Division::T => 32,
        }
    }

    /// Number of beats in one bar.
    #[verifier::when_used_as_spec(spec_value)]
    pub fn value(self) -> (r: u8)
        ensures
            r == self.spec_value(),
    {
        match self {
            Division::W => 1,
            Division::H => 2,
            Division::QD => 3,
            Division::Q => 4,
            Division::ED => 6,
            Division::E => 8,
            Division::SD => 12,
            Division::S => 16,
            Division::TD => 24,
            Division::T => 32,
        }
    }

    /// The division with `v` beats per bar, if `v` is one of the allowed values.
    pub open spec fn spec_from_value(v: int) -> Option<Division> {
        if v == 1 {
            Some(Division::W)
        } else if v == 2 {
            Some(Division::H)
        } else if v == 3 {
            Some(Division::QD)
        } else if v == 4 {
            Some(Division::Q)
        } else if v == 6 {
            Some(Division::ED)
        } else if v == 8 {
            Some(Division::E)
        } else if v == 12 {
            Some(Division::SD)
        } else if v == 16 {
            Some(Division::S)
        } else if v == 24 {
            Some(Division::TD)
        } else if v == 32 {
            Some(Division::T)
        } else {
            None
        }
    }

    /// The division with `v` beats per bar, or `None` when `v` is not allowed.
    pub fn from_value(v: i64) -> (r: Option<Division>)
        ensures
            r == Self::spec_from_value(v as int),
            r matches Some(d) ==> d.spec_value() == v,
    {
        match v {
            1 => Some(Division::W),
            2 => Some(Division::H),
            3 => Some(Division::QD),
            4 => Some(Division::Q),
            6 => Some(Division::ED),
            8 => Some(Division::E),
            12 => Some(Division::SD),
            16 => Some(Division::S),
            24 => Some(Division::TD),
            32 => Some(Division::T),
            _ => None,
        }
    }

    /// Pulses between two beats: `PPB / division`.
    pub open spec fn spec_step(self) -> u8 {
        (PPB / self.spec_value()) as u8
    }

    /// Pulses between two beats: `PPB / division`.
    #[verifier::when_used_as_spec(spec_step)]
    pub fn step(self) -> (r: u8)
        ensures
            r == self.spec_step(),
            3 <= r <= PPB,
    {
        PPB / self.value()
    }
}

impl From<i64> for Division {
    /// Any value outside the allowed set gives a whole-bar division.
    fn from(value: i64) -> (r: Division) {
        match Division::from_value(value) {
            Some(d) => d,
            None => Division::W,
        }
    }
}

impl vstd::std_specs::convert::FromSpecImpl<i64> for Division {
    open spec fn obeys_from_spec() -> bool {
        true
    }

    open spec fn from_spec(v: i64) -> Division {
        match Division::spec_from_value(v as int) {
            Some(d) => d,
            None => Division::W,
        }
    }
}

/// Whether `bpm` is an accepted tempo.
pub open spec fn valid_tempo(bpm: int) -> bool {
    MIN_TEMPO <= bpm <= MAX_TEMPO
}

/// Length of one pulse in nanoseconds: one minute over `bpm * PPQN` pulses.
pub open spec fn pulse_interval_of(bpm: int) -> int {
    NANOS_PER_MINUTE as int / (bpm * PPQN as int)
}

/// Length of one pulse in nanoseconds at tempo `bpm`.
pub fn pulse_interval(bpm: u16) -> (r: u64)
    requires
        valid_tempo(bpm as int),
    ensures
        r as int == pulse_interval_of(bpm as int),
{
    NANOS_PER_MINUTE / (bpm as u64 * PPQN as u64)
}

/// Swing delay of every second beat, in pulses: `round(swing * step / 200)`.
pub open spec fn swing_delay_of(swing: int, step: int) -> int {
    (swing * step + 100) / 200
}

/// Whether pulse `pulse` of the bar is a beat tick for beats `step` pulses
/// apart, every second beat being delayed by `delay` pulses.
pub open spec fn is_beat_tick(pulse: int, step: int, delay: int) -> bool {
    let k = pulse / step;
    let r = pulse % step;
    if k % 2 == 1 {
        r == delay
    } else {
        r == 0
    }
}

/// Whether pulse `pulse` is a beat tick under `division` and `swing`.
pub fn beat_tick(pulse: u8, division: Division, swing: u8) -> (r: bool)
    requires
        swing <= MAX_SWING,
    ensures
        r == is_beat_tick(
            pulse as int,
            division.spec_step() as int,
            swing_delay_of(swing as int, division.spec_step() as int),
        ),
{
    let step = division.step();
    assert(swing as u32 * step as u32 <= 100 * 96) by (nonlinear_arith)
        requires
            swing <= 100,
            step <= 96,
    ;
    let delay: u32 = (swing as u32 * step as u32 + 100) / 200;
    let k = pulse / step;
    let r = pulse % step;
    if k % 2 == 1 {
        r as u32 == delay
    } else {
        r == 0
    }
}

} // verus!
