//! Rules of the coordinator that depend on nothing but their arguments.

use crate::engine::timebase::{clamp_u64, div_round, round_div, to_u64_saturating};
use crate::engine::transport::{sat_add_u64, sat_sub_u64};
use crate::eval::judge::{
    AdvanceMode, ChordRollTicks, JudgeConfig, TimingWindowTicks, WrongNotePolicy,
};
use crate::ports::midi::MidiLikeEvent;
use crate::ports::playback::ScheduledEvent;
use crate::ports::types::{AudioConfig, Bus, SampleTime};
use crate::score::model::TargetEvent;
use vstd::prelude::*;

verus! {

/// The number of pitches.
pub const PITCHES: u8 = 128;

pub const NANOS_PER_SECOND: u64 = 1_000_000_000;

/// Frames between now and the start of the test note.
pub const TEST_NOTE_LEAD_FRAMES: u64 = 64;

/// The pitch of the test note.
pub const TEST_NOTE: u8 = 60;

/// The velocity of the test note.
pub const TEST_NOTE_VELOCITY: u8 = 96;

/// What an audio output is opened with where neither the caller nor the
/// device says otherwise.
pub open spec fn fallback_config() -> AudioConfig {
    AudioConfig { sample_rate_hz: 48_000, channels: 2, buffer_size_frames: None }
}

/// A reading of the audio clock together with the time at which it was
/// taken, in nanoseconds.
#[derive(Clone, Copy, Debug, PartialEq, Eq, Structural)]
pub struct ClockAnchor {
    pub at: u64,
    pub sample_time: SampleTime,
}

/// The judge's configuration until the host sets another.
pub fn default_judge_config() -> (cfg: JudgeConfig)
    ensures
        cfg == (JudgeConfig {
            window: TimingWindowTicks { perfect: 30, good: 80 },
            chord_roll: ChordRollTicks(24),
            wrong_note_policy: WrongNotePolicy::DegradePerfect,
            advance: AdvanceMode::OnResolve,
        }),
        cfg.windows_ordered(),
{
    JudgeConfig {
        window: TimingWindowTicks { perfect: 30, good: 80 },
        chord_roll: ChordRollTicks(24),
        wrong_note_policy: WrongNotePolicy::DegradePerfect,
        advance: AdvanceMode::OnResolve,
    }
}

/// The `k`-th of the events that silence the two buses at `now`: for each
/// pitch a note off on the autopilot bus and one on the monitor bus, then
/// the release of the pedal on each.
pub open spec fn flush_event(now: SampleTime, k: int) -> ScheduledEvent {
    let bus = if k % 2 == 0 {
        Bus::Autopilot
    } else {
        Bus::UserMonitor
    };
    let event = if k < 2 * PITCHES {
        MidiLikeEvent::NoteOff { note: (k / 2) as u8 }
    } else {
        MidiLikeEvent::Cc64 { value: 0 }
    };
    ScheduledEvent { sample_time: now, bus, event }
}

/// The events that silence the autopilot and monitor buses at `now`.
pub open spec fn flush_events_spec(now: SampleTime) -> Seq<ScheduledEvent> {
    Seq::new((2 * PITCHES + 2) as nat, |k: int| flush_event(now, k))
}

/// Note off for every pitch and release of the pedal, on the autopilot and
/// the monitor bus, all at `now`.
pub fn flush_events(now: SampleTime) -> (events: Vec<ScheduledEvent>)
    ensures
        events@ == flush_events_spec(now),
{
    let mut events: Vec<ScheduledEvent> = Vec::new();
    let mut note: u8 = 0;
    while note < PITCHES
        invariant
            note <= PITCHES,
            events@.len() == 2 * note,
            forall|k: int| 0 <= k < events@.len() ==> events@[k] == flush_event(now, k),
        decreases PITCHES - note,
    {
        events.push(
            ScheduledEvent {
                sample_time: now,
                bus: Bus::Autopilot,
                event: MidiLikeEvent::NoteOff { note },
            },
        );
        events.push(
            ScheduledEvent {
                sample_time: now,
                bus: Bus::UserMonitor,
                event: MidiLikeEvent::NoteOff { note },
            },
        );
        note = note + 1;
    }
    events.push(
        ScheduledEvent {
            sample_time: now,
            bus: Bus::Autopilot,
            event: MidiLikeEvent::Cc64 { value: 0 },
        },
    );
    events.push(
        ScheduledEvent {
            sample_time: now,
            bus: Bus::UserMonitor,
            event: MidiLikeEvent::Cc64 { value: 0 },
        },
    );
    assert(events@ =~= flush_events_spec(now));
    events
}

/// Samples that pass in `nanos` nanoseconds at `sample_rate_hz`, taken as
/// at least one hertz, to the nearest sample.
pub open spec fn nanos_to_samples(nanos: u64, sample_rate_hz: u32) -> u64 {
    let rate = if sample_rate_hz == 0 {
        1
    } else {
        sample_rate_hz as int
    };
    clamp_u64(round_div(nanos * rate, NANOS_PER_SECOND as int))
}

/// The sample time of an event that arrived at time `at`: the anchor's
/// sample time moved by the samples between the anchor and `at`, or the
/// clock's reading `audio_now` without an anchor.
pub open spec fn estimate_sample_time_spec(
    anchor: Option<ClockAnchor>,
    at: u64,
    sample_rate_hz: u32,
    audio_now: SampleTime,
) -> SampleTime {
    match anchor {
        None => audio_now,
        Some(anchor) => if at >= anchor.at {
            sat_add_u64(
                anchor.sample_time,
                nanos_to_samples((at - anchor.at) as u64, sample_rate_hz),
            )
        } else {
            sat_sub_u64(
                anchor.sample_time,
                nanos_to_samples((anchor.at - at) as u64, sample_rate_hz),
            )
        },
    }
}

pub fn estimate_sample_time(
    anchor: Option<ClockAnchor>,
    at: u64,
    sample_rate_hz: u32,
    audio_now: SampleTime,
) -> (sample_time: SampleTime)
    ensures
        sample_time == estimate_sample_time_spec(anchor, at, sample_rate_hz, audio_now),
{
    match anchor {
        None => audio_now,
        Some(anchor) => {
            let rate: u32 = if sample_rate_hz == 0 {
                1
            } else {
                sample_rate_hz
            };
            if at >= anchor.at {
                let nanos: u64 = at - anchor.at;
                assert(0 <= nanos * rate <= 0x1_0000_0000_0000_0000 * 0x1_0000_0000)
                    by (nonlinear_arith)
                    requires
                        0 <= nanos <= 0x1_0000_0000_0000_0000,
                        0 <= rate <= 0x1_0000_0000,
                ;
                let delta = to_u64_saturating(
                    div_round((nanos as i128) * (rate as i128), NANOS_PER_SECOND as i128),
                );
                anchor.sample_time.saturating_add(delta)
            } else {
                let nanos: u64 = anchor.at - at;
                assert(0 <= nanos * rate <= 0x1_0000_0000_0000_0000 * 0x1_0000_0000)
                    by (nonlinear_arith)
                    requires
                        0 <= nanos <= 0x1_0000_0000_0000_0000,
                        0 <= rate <= 0x1_0000_0000,
                ;
                let delta = to_u64_saturating(
                    div_round((nanos as i128) * (rate as i128), NANOS_PER_SECOND as i128),
                );
                anchor.sample_time.saturating_sub(delta)
            }
        },
    }
}

/// The configuration an output is opened with: the one asked for, else
/// the device's own, else the fallback; a buffer size of zero counts as
/// none; and where none is left, the size kept in the settings is taken.
/// A size that was asked for replaces the one kept.
pub open spec fn resolve_audio_config_spec(
    requested: Option<AudioConfig>,
    device_default: Option<AudioConfig>,
    kept_frames: Option<u32>,
) -> (AudioConfig, Option<u32>) {
    let chosen = match requested {
        Some(config) => config,
        None => match device_default {
            Some(config) => config,
            None => fallback_config(),
        },
    };
    let frames = if chosen.buffer_size_frames == Some(0u32) {
        None
    } else {
        chosen.buffer_size_frames
    };
    let kept = if requested is Some {
        frames
    } else {
        kept_frames
    };
    let frames = if frames is None {
        kept
    } else {
        frames
    };
    (
        AudioConfig {
            sample_rate_hz: chosen.sample_rate_hz,
            channels: chosen.channels,
            buffer_size_frames: frames,
        },
        kept,
    )
}

pub fn resolve_audio_config(
    requested: Option<AudioConfig>,
    device_default: Option<AudioConfig>,
    kept_frames: Option<u32>,
) -> (resolved: (AudioConfig, Option<u32>))
    ensures
        resolved == resolve_audio_config_spec(requested, device_default, kept_frames),
{
    let mut config = match requested {
        Some(config) => config,
        None => match device_default {
            Some(config) => config,
            None => AudioConfig { sample_rate_hz: 48_000, channels: 2, buffer_size_frames: None },
        },
    };
    match config.buffer_size_frames {
        Some(frames) => {
            if frames == 0 {
                config.buffer_size_frames = None;
            }
        },
        None => {},
    }
    let kept = if requested.is_some() {
        config.buffer_size_frames
    } else {
        kept_frames
    };
    if config.buffer_size_frames.is_none() {
        config.buffer_size_frames = kept;
    }
    (config, kept)
}

/// Share of hits among `hit + miss` resolved targets in parts per million,
/// to the nearest; zero where none is resolved.
pub open spec fn accuracy_ppm_spec(hit: u32, miss: u32) -> u32 {
    if hit + miss == 0 {
        0
    } else {
        clamp_u64(round_div(hit * 1_000_000, hit + miss)) as u32
    }
}

pub fn accuracy_ppm(hit: u32, miss: u32) -> (ppm: u32)
    ensures
        ppm == accuracy_ppm_spec(hit, miss),
        ppm <= 1_000_000,
{
    if hit == 0 && miss == 0 {
        return 0;
    }
    let total: i128 = hit as i128 + miss as i128;
    let scaled: i128 = hit as i128 * 1_000_000;
    let q = div_round(scaled, total);
    proof {
        crate::engine::timing_laws::lemma_round_div_bounds(scaled as int, total as int);
        assert(q <= 1_000_000) by (nonlinear_arith)
            requires
                2 * total * q <= 2 * scaled + total,
                scaled <= 1_000_000 * total,
                total > 0,
                q >= 0,
        ;
    }
    q as u32
}

/// The two events of the test note: a note on shortly behind `audio_now`
/// on the monitor bus, and its note off a quarter of a second later.
pub open spec fn test_note_events_spec(audio_now: SampleTime, sample_rate_hz: u32) -> Seq<
    ScheduledEvent,
> {
    let start = sat_add_u64(audio_now, TEST_NOTE_LEAD_FRAMES);
    let length = clamp_u64(round_div(sample_rate_hz as int, 4));
    seq![
        (ScheduledEvent {
            sample_time: start,
            bus: Bus::UserMonitor,
            event: MidiLikeEvent::NoteOn { note: TEST_NOTE, velocity: TEST_NOTE_VELOCITY },
        }),
        (ScheduledEvent {
            sample_time: sat_add_u64(start, length),
            bus: Bus::UserMonitor,
            event: MidiLikeEvent::NoteOff { note: TEST_NOTE },
        }),
    ]
}

pub fn test_note_events(audio_now: SampleTime, sample_rate_hz: u32) -> (events: Vec<
    ScheduledEvent,
>)
    ensures
        events@ == test_note_events_spec(audio_now, sample_rate_hz),
{
    let start = audio_now.saturating_add(TEST_NOTE_LEAD_FRAMES);
    let length = to_u64_saturating(div_round(sample_rate_hz as i128, 4));
    let mut events: Vec<ScheduledEvent> = Vec::new();
    events.push(
        ScheduledEvent {
            sample_time: start,
            bus: Bus::UserMonitor,
            event: MidiLikeEvent::NoteOn { note: TEST_NOTE, velocity: TEST_NOTE_VELOCITY },
        },
    );
    events.push(
        ScheduledEvent {
            sample_time: start.saturating_add(length),
            bus: Bus::UserMonitor,
            event: MidiLikeEvent::NoteOff { note: TEST_NOTE },
        },
    );
    assert(events@ =~= test_note_events_spec(audio_now, sample_rate_hz));
    events
}

/// The pitches of the last target with the identifier `id`; none where no
/// target has it.
pub open spec fn expected_notes_for_spec(targets: Seq<TargetEvent>, id: u64) -> Seq<u8>
    decreases targets.len(),
{
    if targets.len() == 0 {
        Seq::empty()
    } else if targets.last().id == id {
        targets.last().notes@
    } else {
        expected_notes_for_spec(targets.drop_last(), id)
    }
}

pub fn expected_notes_for(targets: &Vec<TargetEvent>, id: u64) -> (notes: Vec<u8>)
    ensures
        notes@ == expected_notes_for_spec(targets@, id),
{
    let mut i: usize = targets.len();
    assert(targets@.subrange(0, i as int) =~= targets@);
    while i > 0
        invariant
            i <= targets@.len(),
            expected_notes_for_spec(targets@, id) == expected_notes_for_spec(
                targets@.subrange(0, i as int),
                id,
            ),
        decreases i,
    {
        proof {
            let prefix = targets@.subrange(0, i as int);
            assert(prefix.drop_last() =~= targets@.subrange(0, i - 1));
            assert(prefix.last() == targets@[i - 1]);
        }
        if targets[i - 1].id == id {
            return targets[i - 1].notes.clone();
        }
        i = i - 1;
    }
    Vec::new()
}

} // verus!
