//! The single track of a Standard MIDI File as it is written: events are
//! made and the bytes are encoded by the `midly` crate.

use midly::num::{u24, u28, u4, u7};
use midly::{Format, Header, MetaMessage, MidiMessage, Smf, Timing, TrackEvent, TrackEventKind};
use vstd::prelude::*;

verus! {

/// The largest delta time that a file can hold, which has 28 bits.
pub const MAX_DELTA: u32 = 0x0fff_ffff;

/// The largest tempo that a file can hold, which has 24 bits.
pub const MAX_TEMPO: u32 = 0x00ff_ffff;

/// What an event of a written track is. The notes and the controller are
/// those of channel 0; `Other` is every event that this library never
/// writes.
#[derive(Clone, Copy, Debug, PartialEq, Eq, Structural)]
pub enum TrackItemKind {
    /// Key and velocity.
    NoteOn(u8, u8),
    /// Key and velocity.
    NoteOff(u8, u8),
    /// Controller and value.
    Controller(u8, u8),
    /// Microseconds per quarter note.
    Tempo(u32),
    EndOfTrack,
    Other,
}

/// An event of a written track, `delta` pulses behind the one before it.
#[derive(Clone, Copy, Debug, PartialEq, Eq, Structural)]
pub struct TrackItem {
    pub delta: u32,
    pub kind: TrackItemKind,
}

#[verifier::external_type_specification]
#[verifier::external_body]
pub struct ExTrackEvent<'a>(midly::TrackEvent<'a>);

/// What an event of `midly` is, as far as this library writes events.
pub uninterp spec fn track_item(event: midly::TrackEvent) -> TrackItem;

/// The bytes that `midly` writes for a file of format 0 with the
/// resolution `ppq` and the one track `track`.
pub uninterp spec fn smf_bytes(ppq: u16, track: Seq<TrackItem>) -> Seq<u8>;

/// What the events of a track are.
pub open spec fn track_items(track: Seq<midly::TrackEvent<'static>>) -> Seq<TrackItem> {
    Seq::new(track.len(), |i: int| track_item(track[i]))
}

/// None of the events is one that this library never writes.
pub open spec fn all_known(track: Seq<midly::TrackEvent<'static>>) -> bool {
    forall|i: int| 0 <= i < track.len() ==> track_item(#[trigger] track[i]).kind != TrackItemKind::Other
}

/// A `midly::TrackEvent` that holds a note on of channel 0. The numbers
/// fit their fields, so `u28::new` and `u7::new` keep them as they are.
#[verifier::external_body]
pub(crate) fn note_on_event(delta: u32, key: u8, vel: u8) -> (event: TrackEvent<'static>)
    requires
        delta <= MAX_DELTA,
        key < 128,
        vel < 128,
    ensures
        track_item(event) == (TrackItem { delta, kind: TrackItemKind::NoteOn(key, vel) }),
{
    let message = MidiMessage::NoteOn { key: u7::new(key), vel: u7::new(vel) };
    TrackEvent { delta: u28::new(delta), kind: TrackEventKind::Midi { channel: u4::new(0), message } }
}

/// A `midly::TrackEvent` that holds a note off of channel 0.
#[verifier::external_body]
pub(crate) fn note_off_event(delta: u32, key: u8, vel: u8) -> (event: TrackEvent<'static>)
    requires
        delta <= MAX_DELTA,
        key < 128,
        vel < 128,
    ensures
        track_item(event) == (TrackItem { delta, kind: TrackItemKind::NoteOff(key, vel) }),
{
    let message = MidiMessage::NoteOff { key: u7::new(key), vel: u7::new(vel) };
    TrackEvent { delta: u28::new(delta), kind: TrackEventKind::Midi { channel: u4::new(0), message } }
}

/// A `midly::TrackEvent` that holds a controller change of channel 0.
#[verifier::external_body]
pub(crate) fn controller_event(delta: u32, controller: u8, value: u8) -> (event: TrackEvent<
    'static,
>)
    requires
        delta <= MAX_DELTA,
        controller < 128,
        value < 128,
    ensures
        track_item(event) == (TrackItem {
            delta,
            kind: TrackItemKind::Controller(controller, value),
        }),
{
    let message = MidiMessage::Controller { controller: u7::new(controller), value: u7::new(value) };
    TrackEvent { delta: u28::new(delta), kind: TrackEventKind::Midi { channel: u4::new(0), message } }
}

/// A `midly::TrackEvent` that holds a tempo change.
#[verifier::external_body]
pub(crate) fn tempo_event(delta: u32, us_per_quarter: u32) -> (event: TrackEvent<'static>)
    requires
        delta <= MAX_DELTA,
        us_per_quarter <= MAX_TEMPO,
    ensures
        track_item(event) == (TrackItem { delta, kind: TrackItemKind::Tempo(us_per_quarter) }),
{
    let tempo = MetaMessage::Tempo(u24::new(us_per_quarter));
    TrackEvent { delta: u28::new(delta), kind: TrackEventKind::Meta(tempo) }
}

/// A `midly::TrackEvent` that ends a track.
#[verifier::external_body]
pub(crate) fn end_of_track_event(delta: u32) -> (event: TrackEvent<'static>)
    requires
        delta <= MAX_DELTA,
    ensures
        track_item(event) == (TrackItem { delta, kind: TrackItemKind::EndOfTrack }),
{
    TrackEvent { delta: u28::new(delta), kind: TrackEventKind::Meta(MetaMessage::EndOfTrack) }
}

/// The most events of a track that are sure to be written: each event
/// that this library writes takes ten bytes at most, and the length of a
/// track is written in 32 bits.
pub const MAX_TRACK_EVENTS: usize = 0x0fff_ffff;

/// Encodes a file of format 0 with one track by `midly::Smf::write`. The
/// bytes depend on the resolution and the events alone. `midly` writes
/// into memory and refuses only a track whose bytes are more than 32 bits
/// count, which a track of no more than `MAX_TRACK_EVENTS` events of the
/// kinds known here cannot reach; where it refuses, its message comes
/// back.
#[verifier::external_body]
pub(crate) fn write_track(ppq: u16, track: Vec<TrackEvent<'static>>) -> (written: Result<
    Vec<u8>,
    String,
>)
    requires
        all_known(track@),
    ensures
        written matches Ok(bytes) ==> bytes@ == smf_bytes(ppq, track_items(track@)),
        track@.len() <= MAX_TRACK_EVENTS ==> written is Ok,
{
    let header = Header { format: Format::SingleTrack, timing: Timing::Metrical(ppq.into()) };
    let mut smf = Smf::new(header);
    smf.tracks.push(track);
    let mut data = Vec::new();
    smf.write(&mut data).map_err(|e| e.to_string())?;
    Ok(data)
}

} // verus!
