//! The built-in demo score.

use crate::ports::midi::MidiLikeEvent;
use crate::ports::types::Tick;
use crate::score::model::{
    PlaybackMidiEvent, Score, ScoreMeta, ScoreSource, TargetEvent, TempoPoint, Track,
    DEFAULT_US_PER_QUARTER,
};
use vstd::prelude::*;

verus! {

/// Pulses per quarter note of the demo.
pub const DEMO_PPQ: u16 = 480;

/// The velocity of the notes of the demo.
pub const DEMO_VELOCITY: u8 = 92;

/// The pitches of the demo: the scale of C major, upwards.
pub open spec fn demo_notes() -> Seq<u8> {
    seq![60u8, 62, 64, 65, 67, 69, 71, 72]
}

/// The tick at which the `i`-th note of the demo starts.
pub open spec fn demo_tick(i: int) -> Tick {
    (i * DEMO_PPQ) as i64
}

/// The `k`-th playback event of the demo: each note starts on its quarter
/// and ends on the next.
pub open spec fn demo_playback_event(k: int) -> PlaybackMidiEvent {
    let note = demo_notes()[k / 2];
    if k % 2 == 0 {
        PlaybackMidiEvent {
            tick: demo_tick(k / 2),
            event: MidiLikeEvent::NoteOn { note, velocity: DEMO_VELOCITY },
            hand: None,
        }
    } else {
        PlaybackMidiEvent {
            tick: demo_tick(k / 2 + 1),
            event: MidiLikeEvent::NoteOff { note },
            hand: None,
        }
    }
}

/// `score` is the demo: the scale of C major in quarter notes at the
/// default tempo, each note a target of its own, in one track.
pub open spec fn is_demo_score(score: Score) -> bool {
    &&& score.meta.title matches Some(title) && title@ == "Demo: C major scale"@
    &&& score.meta.source == ScoreSource::Internal
    &&& score.ppq == DEMO_PPQ
    &&& score.tempo_map@ == seq![TempoPoint { tick: 0, us_per_quarter: DEFAULT_US_PER_QUARTER }]
    &&& score.tracks@.len() == 1
    &&& score.tracks@[0].id == 0
    &&& score.tracks@[0].name@ == "Demo"@
    &&& score.tracks@[0].hand is None
    &&& score.tracks@[0].playback_events@ == Seq::new(16, |k: int| demo_playback_event(k))
    &&& score.tracks@[0].targets@.len() == 8
    &&& forall|i: int|
        0 <= i < 8 ==> {
            let target = #[trigger] score.tracks@[0].targets@[i];
            &&& target.id == i + 1
            &&& target.tick == demo_tick(i)
            &&& target.notes@ == seq![demo_notes()[i]]
            &&& target.hand is None
            &&& target.measure_index is None
        }
}

/// The demo score. Every identifier names the same demo.
pub fn build_demo_score(id: &str) -> (score: Score)
    ensures
        is_demo_score(score),
{
    let notes: [u8; 8] = [60, 62, 64, 65, 67, 69, 71, 72];
    assert(notes@ =~= demo_notes());
    let mut tempo_map: Vec<TempoPoint> = Vec::new();
    tempo_map.push(TempoPoint { tick: 0, us_per_quarter: DEFAULT_US_PER_QUARTER });
    let mut playback_events: Vec<PlaybackMidiEvent> = Vec::new();
    let mut targets: Vec<TargetEvent> = Vec::new();
    let dur: Tick = DEMO_PPQ as i64;
    let mut idx: usize = 0;
    while idx < 8
        invariant
            idx <= 8,
            dur == DEMO_PPQ,
            notes@ == demo_notes(),
            playback_events@.len() == 2 * idx,
            forall|k: int|
                0 <= k < 2 * idx ==> playback_events@[k] == demo_playback_event(k),
            targets@.len() == idx,
            forall|i: int|
                0 <= i < idx ==> {
                    let target = #[trigger] targets@[i];
                    &&& target.id == i + 1
                    &&& target.tick == demo_tick(i)
                    &&& target.notes@ == seq![demo_notes()[i]]
                    &&& target.hand is None
                    &&& target.measure_index is None
                },
        decreases 8 - idx,
    {
        let note = notes[idx];
        let tick: Tick = (idx as i64) * dur;
        playback_events.push(
            PlaybackMidiEvent {
                tick,
                event: MidiLikeEvent::NoteOn { note, velocity: DEMO_VELOCITY },
                hand: None,
            },
        );
        playback_events.push(
            PlaybackMidiEvent { tick: tick + dur, event: MidiLikeEvent::NoteOff { note }, hand: None },
        );
        let mut target_notes: Vec<u8> = Vec::new();
        target_notes.push(note);
        targets.push(
            TargetEvent {
                id: idx as u64 + 1,
                tick,
                notes: target_notes,
                hand: None,
                measure_index: None,
            },
        );
        idx = idx + 1;
    }
    let mut tracks: Vec<Track> = Vec::new();
    tracks.push(
        Track { id: 0, name: "Demo".to_string(), hand: None, targets, playback_events },
    );
    let score = Score {
        meta: ScoreMeta {
            title: Some("Demo: C major scale".to_string()),
            source: ScoreSource::Internal,
        },
        ppq: DEMO_PPQ,
        tempo_map,
        tracks,
    };
    assert(score.tracks@[0].playback_events@ =~= Seq::new(16, |k: int| demo_playback_event(k)));
    score
}

} // verus!
