//! Standard MIDI files as this library reads and writes them: the timing of
//! the header and, for each track, the events that matter to a score. The
//! bytes are parsed and written by the `midly` crate.

use crate::score::midi_header::timecode_overflows;
use midly::{MetaMessage, MidiMessage, TrackEventKind};
use vstd::prelude::*;

verus! {

/// The timing of a file: pulses per quarter note, or frames per second
/// and pulses per frame.
#[derive(Clone, Copy, Debug, PartialEq, Eq, Structural)]
pub enum SmfTiming {
    Metrical(u16),
    Timecode { fps: u8, ticks_per_frame: u8 },
}

/// What an event of a track is to a score.
#[derive(Clone, Copy, Debug, PartialEq, Eq, Structural)]
pub enum SmfEventKind {
    /// Key and velocity.
    NoteOn(u8, u8),
    /// Key.
    NoteOff(u8),
    /// Controller and value.
    Controller(u8, u8),
    /// Microseconds per quarter note.
    Tempo(u32),
    Other,
}

/// An event of a track, `delta` pulses behind the one before it.
#[derive(Clone, Copy, Debug, PartialEq, Eq, Structural)]
pub struct SmfEvent {
    pub delta: u32,
    pub kind: SmfEventKind,
}

/// The content of a file.
#[derive(Clone, Debug)]
pub struct SmfFile {
    pub timing: SmfTiming,
    pub tracks: Vec<Vec<SmfEvent>>,
}

/// The content of a file as a mathematical value.
pub struct SmfContent {
    pub timing: SmfTiming,
    pub tracks: Seq<Seq<SmfEvent>>,
}

impl SmfFile {
    pub open spec fn view(&self) -> SmfContent {
        SmfContent {
            timing: self.timing,
            tracks: Seq::new(self.tracks@.len(), |t: int| self.tracks@[t]@),
        }
    }
}

#[verifier::external_type_specification]
#[verifier::external_body]
pub struct ExSmf<'a>(midly::Smf<'a>);

/// The timing in the header of a parsed file.
pub uninterp spec fn smf_timing(smf: midly::Smf) -> SmfTiming;

/// The tracks of a parsed file, each with its events in order.
pub uninterp spec fn smf_tracks(smf: midly::Smf) -> Seq<Seq<SmfEvent>>;

/// What `midly` reads out of the bytes of a file, if it can read them.
pub uninterp spec fn smf_content(data: Seq<u8>) -> Option<SmfContent>;

/// Parses the bytes of a Standard MIDI File by `midly::Smf::parse`. What
/// comes out depends on the bytes alone: the parsed file where `midly`
/// accepts them, else its message. Files with a header of -128 frames per
/// second are left out: `midly` negates that byte, which fails where
/// overflow is checked.
#[verifier::external_body]
pub(crate) fn parse_smf<'a>(data: &'a [u8]) -> (parsed: Result<midly::Smf<'a>, String>)
    requires
        !timecode_overflows(data@),
    ensures
        match parsed {
            Ok(smf) => smf_content(data@) == Some(
                SmfContent { timing: smf_timing(smf), tracks: smf_tracks(smf) },
            ),
            Err(_) => smf_content(data@) is None,
        },
{
    midly::Smf::parse(data).map_err(|e| e.to_string())
}

/// The timing in the header of a parsed file, `header.timing`.
#[verifier::external_body]
pub(crate) fn timing_of(smf: &midly::Smf) -> (timing: SmfTiming)
    ensures
        timing == smf_timing(*smf),
{
    match smf.header.timing {
        midly::Timing::Metrical(ticks) => SmfTiming::Metrical(ticks.as_int()),
        midly::Timing::Timecode(fps, ticks_per_frame) => SmfTiming::Timecode {
            fps: fps.as_int(),
            ticks_per_frame,
        },
    }
}

/// The number of tracks of a parsed file, `tracks.len()`.
#[verifier::external_body]
pub(crate) fn track_count(smf: &midly::Smf) -> (count: usize)
    ensures
        count == smf_tracks(*smf).len(),
{
    smf.tracks.len()
}

/// The number of events of the track `track` of a parsed file.
#[verifier::external_body]
pub(crate) fn event_count(smf: &midly::Smf, track: usize) -> (count: usize)
    requires
        track < smf_tracks(*smf).len(),
    ensures
        count == smf_tracks(*smf)[track as int].len(),
{
    smf.tracks[track].len()
}

/// The event `index` of the track `track` of a parsed file: its delta
/// time, and of its kind what a score needs.
#[verifier::external_body]
pub(crate) fn event_at(smf: &midly::Smf, track: usize, index: usize) -> (event: SmfEvent)
    requires
        track < smf_tracks(*smf).len(),
        index < smf_tracks(*smf)[track as int].len(),
    ensures
        event == smf_tracks(*smf)[track as int][index as int],
{
    let e = &smf.tracks[track][index];
    let kind = match e.kind {
        TrackEventKind::Midi { message, .. } => match message {
            MidiMessage::NoteOn { key, vel } => SmfEventKind::NoteOn(key.as_int(), vel.as_int()),
            MidiMessage::NoteOff { key, .. } => SmfEventKind::NoteOff(key.as_int()),
            MidiMessage::Controller { controller: c, value: v } => SmfEventKind::Controller(
                c.as_int(),
                v.as_int(),
            ),
            _ => SmfEventKind::Other,
        },
        TrackEventKind::Meta(MetaMessage::Tempo(t)) => SmfEventKind::Tempo(t.as_int()),
        _ => SmfEventKind::Other,
    };
    SmfEvent { delta: e.delta.as_int(), kind }
}

} // verus!
