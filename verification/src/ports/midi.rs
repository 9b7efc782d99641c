use crate::ports::types::{DeviceId, MidiInputDevice};
use vstd::prelude::*;

verus! {

/// The three kinds of performance event the core understands. A `Cc64`
/// value of 64 or more means the damper pedal is down.
#[derive(Clone, Copy, Debug, PartialEq, Eq, Structural)]
pub enum MidiLikeEvent {
    NoteOn { note: u8, velocity: u8 },
    NoteOff { note: u8 },
    Cc64 { value: u8 },
}

#[derive(Clone, Copy, Debug, PartialEq, Eq, Structural)]
pub enum EventSource {
    User,
    Autopilot,
    Metronome,
}

#[derive(Clone, Debug)]
pub enum MidiError {
    DeviceNotFound(String),
    DeviceUnavailable(String),
    Backend(String),
}

/// A raw event of the player, stamped with the time of its arrival in
/// nanoseconds on a clock that never runs backwards.
#[derive(Clone, Copy, Debug)]
pub struct PlayerEvent {
    pub at: u64,
    pub event: MidiLikeEvent,
}

/// An open input stream; closing it stops the callbacks.
pub trait MidiInputStream: Send {
    fn close(self: Box<Self>);
}

/// Enumeration of the MIDI inputs.
pub trait MidiInputPort: Send + Sync {
    fn list_inputs(&self) -> Result<Vec<MidiInputDevice>, MidiError>;

    fn open_input(
        &self,
        device_id: &DeviceId,
        cb: Box<dyn PlayerEventSink>,
    ) -> Result<Box<dyn MidiInputStream>, MidiError>;
}

/// Where an open input delivers the player's events, from the thread of
/// the device.
pub trait PlayerEventSink: Send + Sync {
    fn deliver(&self, event: PlayerEvent);
}

} // verus!
