use vstd::prelude::*;

verus! {

/// Musical time in pulses, monotonic within a score.
pub type Tick = i64;

/// Audio sample index since the stream started.
pub type SampleTime = u64;

/// The sum of two ticks, held within the range of ticks.
pub open spec fn sat_add_tick(a: Tick, b: Tick) -> Tick {
    if a + b > i64::MAX {
        i64::MAX
    } else if a + b < i64::MIN {
        i64::MIN
    } else {
        (a + b) as i64
    }
}

/// The sum of two ticks, held within the range of ticks.
pub fn add_ticks(a: Tick, b: Tick) -> (sum: Tick)
    ensures
        sum == sat_add_tick(a, b),
{
    let wide: i128 = a as i128 + b as i128;
    if wide > i64::MAX as i128 {
        i64::MAX
    } else if wide < i64::MIN as i128 {
        i64::MIN
    } else {
        wide as i64
    }
}

/// Opaque identifier of an audio or MIDI device.
#[derive(Clone, Debug, PartialEq, Eq, Hash)]
pub struct DeviceId(pub String);

/// A named mix path with independent synthesizer state.
#[derive(Clone, Copy, Debug, PartialEq, Eq, Hash, Structural)]
pub enum Bus {
    UserMonitor,
    Autopilot,
    MetronomeFx,
}

impl Bus {
    /// True for the buses that carry score-driven sound, which the global
    /// mute silences.
    pub open spec fn is_score_driven(self) -> bool {
        self == Bus::Autopilot || self == Bus::MetronomeFx
    }

    /// Executable form of [`Bus::is_score_driven`].
    pub fn score_driven(self) -> (r: bool)
        ensures
            r == self.is_score_driven(),
    {
        match self {
            Bus::UserMonitor => false,
            Bus::Autopilot => true,
            Bus::MetronomeFx => true,
        }
    }
}

#[derive(Clone, Debug)]
pub struct MidiInputDevice {
    pub id: DeviceId,
    pub name: String,
    pub is_available: bool,
}

#[derive(Clone, Debug)]
pub struct AudioOutputDevice {
    pub id: DeviceId,
    pub name: String,
    pub default_config: AudioConfig,
}

#[derive(Clone, Copy, Debug)]
pub struct AudioConfig {
    pub sample_rate_hz: u32,
    pub channels: u16,
    pub buffer_size_frames: Option<u32>,
}

/// Bit pattern of the single-precision number 0.0.
pub const BITS_ZERO: u32 = 0;

/// Bit pattern of the single-precision number 1.0.
pub const BITS_ONE: u32 = 0x3f80_0000;

/// Bit pattern of positive infinity; every larger pattern with a clear sign
/// bit is not a number.
pub const BITS_INFINITY: u32 = 0x7f80_0000;

/// Bit pattern of negative zero: the sign bit alone.
pub const BITS_NEGATIVE_ZERO: u32 = 0x8000_0000;

/// Bit pattern of negative infinity; every larger pattern is not a number.
pub const BITS_NEGATIVE_INFINITY: u32 = 0xff80_0000;

/// The bit pattern of `bits`, read as a single-precision number, clamped
/// to the range from 0 to 1. Patterns of one sign are ordered as the
/// numbers they stand for, so the clamp is a comparison of patterns: what
/// lies below zero becomes 0.0, what lies above one becomes 1.0, and zero of
/// either sign and what is not a number stay as they are.
pub open spec fn clamp_unit_bits(bits: u32) -> u32 {
    if BITS_NEGATIVE_ZERO < bits <= BITS_NEGATIVE_INFINITY {
        BITS_ZERO
    } else if BITS_ONE < bits <= BITS_INFINITY {
        BITS_ONE
    } else {
        bits
    }
}

/// A volume between 0 and 1, held as the bit pattern of a single-precision
/// number.
#[derive(Clone, Copy, Debug, PartialEq, Eq, Structural)]
pub struct Volume01 {
    bits: u32,
}

impl Volume01 {
    /// The bit pattern held.
    pub closed spec fn view(self) -> u32 {
        self.bits
    }

    /// The pattern is one that clamping leaves alone.
    pub open spec fn wf(self) -> bool {
        clamp_unit_bits(self@) == self@
    }

    /// The volume of the number with the bit pattern `bits`, clamped.
    pub fn new(bits: u32) -> (volume: Volume01)
        ensures
            volume@ == clamp_unit_bits(bits),
            volume.wf(),
    {
        let clamped: u32 = if BITS_NEGATIVE_ZERO < bits && bits <= BITS_NEGATIVE_INFINITY {
            BITS_ZERO
        } else if BITS_ONE < bits && bits <= BITS_INFINITY {
            BITS_ONE
        } else {
            bits
        };
        Volume01 { bits: clamped }
    }

    /// The bit pattern of the volume.
    pub fn get(self) -> (bits: u32)
        ensures
            bits == self@,
    {
        self.bits
    }
}

} // verus!
