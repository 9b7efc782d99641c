use crate::ports::midi::MidiLikeEvent;
use vstd::prelude::*;

verus! {

/// A MIDI input backend that is known to the system by a client name.
pub struct MidirMidiInputPort {
    client_name: String,
}

/// Status of a note off message, without the channel.
pub const STATUS_NOTE_OFF: u8 = 0x80;

/// Status of a note on message, without the channel.
pub const STATUS_NOTE_ON: u8 = 0x90;

/// Status of a control change message, without the channel.
pub const STATUS_CONTROL_CHANGE: u8 = 0xB0;

/// The controller number of the damper pedal.
pub const DAMPER_PEDAL: u8 = 64;

/// What a raw message of one to three bytes means to the core: a note off,
/// a note on of velocity 0 taken as a note off, a note on, or the damper
/// pedal. The channel is passed over; every other message means nothing.
pub open spec fn parse_message_spec(message: Seq<u8>) -> Option<MidiLikeEvent> {
    if message.len() < 3 {
        None
    } else {
        let status = message[0] & 0xF0;
        if status == STATUS_NOTE_OFF {
            Some(MidiLikeEvent::NoteOff { note: message[1] })
        } else if status == STATUS_NOTE_ON {
            if message[2] == 0 {
                Some(MidiLikeEvent::NoteOff { note: message[1] })
            } else {
                Some(MidiLikeEvent::NoteOn { note: message[1], velocity: message[2] })
            }
        } else if status == STATUS_CONTROL_CHANGE && message[1] == DAMPER_PEDAL {
            Some(MidiLikeEvent::Cc64 { value: message[2] })
        } else {
            None
        }
    }
}

impl MidirMidiInputPort {
    pub closed spec fn view(&self) -> Seq<char> {
        self.client_name@
    }

    pub fn new(client_name: String) -> (port: MidirMidiInputPort)
        ensures
            port@ == client_name@,
    {
        MidirMidiInputPort { client_name }
    }

    /// The name by which the backend is known to the system.
    pub fn client_name(&self) -> (name: &String)
        ensures
            name@ == self@,
    {
        &self.client_name
    }

    /// The event of a raw message, if it is one that the core takes.
    pub fn parse_message(message: &[u8]) -> (event: Option<MidiLikeEvent>)
        ensures
            event == parse_message_spec(message@),
    {
        if message.len() < 2 {
            return None;
        }
        let status = message[0] & 0xF0;
        if status == STATUS_NOTE_OFF {
            if message.len() < 3 {
                return None;
            }
            Some(MidiLikeEvent::NoteOff { note: message[1] })
        } else if status == STATUS_NOTE_ON {
            if message.len() < 3 {
                return None;
            }
            let note = message[1];
            let velocity = message[2];
            if velocity == 0 {
                Some(MidiLikeEvent::NoteOff { note })
            } else {
                Some(MidiLikeEvent::NoteOn { note, velocity })
            }
        } else if status == STATUS_CONTROL_CHANGE {
            if message.len() < 3 {
                return None;
            }
            if message[1] == DAMPER_PEDAL {
                Some(MidiLikeEvent::Cc64 { value: message[2] })
            } else {
                None
            }
        } else {
            None
        }
    }
}

} // verus!
