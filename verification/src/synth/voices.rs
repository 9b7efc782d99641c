use vstd::prelude::*;

verus! {

/// The number of voices of a bus.
pub const MAX_VOICES: usize = 64;

/// The most strings that a note has.
pub const MAX_STRINGS_PER_NOTE: usize = 3;

/// Bit pattern of the gain, a single-precision number, below which a voice
/// that nothing holds is given up: the number nearest to 0.0008.
pub const BITS_SILENT_GAIN: u32 = 0x3a51_b717;

/// Bit pattern of positive infinity: the largest that stands for a gain.
pub const BITS_MAX_GAIN: u32 = 0x7f80_0000;

/// What the keys and the pedal have done to a voice.
#[derive(Clone, Copy, Debug, PartialEq, Eq, Structural)]
pub struct VoiceKeys {
    pub active: bool,
    pub note: u8,
    pub key_down: bool,
    pub sustained: bool,
    pub age: u64,
}

/// The stage of a voice's life.
#[derive(Clone, Copy, Debug, PartialEq, Eq, Structural)]
pub enum VoicePhase {
    Inactive,
    /// The key is down.
    Ringing,
    /// The key is up and the pedal holds the note.
    Sustained,
    /// Nothing holds the note; it dies away.
    Releasing,
}

impl VoiceKeys {
    pub open spec fn idle() -> VoiceKeys {
        VoiceKeys { active: false, note: 0, key_down: false, sustained: false, age: 0 }
    }

    pub open spec fn phase(self) -> VoicePhase {
        if !self.active {
            VoicePhase::Inactive
        } else if self.key_down {
            VoicePhase::Ringing
        } else if self.sustained {
            VoicePhase::Sustained
        } else {
            VoicePhase::Releasing
        }
    }

    /// The stage of the voice's life.
    pub fn current_phase(&self) -> (phase: VoicePhase)
        ensures
            phase == self.phase(),
    {
        if !self.active {
            VoicePhase::Inactive
        } else if self.key_down {
            VoicePhase::Ringing
        } else if self.sustained {
            VoicePhase::Sustained
        } else {
            VoicePhase::Releasing
        }
    }
}

/// The number of strings of a note: three from the G below middle C on,
/// two from the B two octaves below that, one below.
pub open spec fn string_count_spec(note: u8) -> usize {
    if note >= 55 {
        3
    } else if note >= 35 {
        2
    } else {
        1
    }
}

pub fn string_count(note: u8) -> (count: usize)
    ensures
        count == string_count_spec(note),
        1 <= count <= MAX_STRINGS_PER_NOTE,
{
    if note >= 55 {
        3
    } else if note >= 35 {
        2
    } else {
        1
    }
}

/// The bit patterns stand for gains: numbers that are not negative.
pub open spec fn are_gains(gains: Seq<u32>) -> bool {
    gains.len() == MAX_VOICES && forall|i: int|
        0 <= i < gains.len() ==> #[trigger] gains[i] <= BITS_MAX_GAIN
}

/// The voice that a new note takes: the first that is inactive, else the
/// first of those with the lowest gain.
pub open spec fn is_allocated(voices: Seq<VoiceKeys>, gains: Seq<u32>, idx: int) -> bool {
    &&& 0 <= idx < voices.len()
    &&& if exists|i: int| 0 <= i < voices.len() && !(#[trigger] voices[i]).active {
        &&& !voices[idx].active
        &&& forall|i: int| 0 <= i < idx ==> (#[trigger] voices[i]).active
    } else {
        &&& forall|i: int| 0 <= i < voices.len() ==> gains[idx] <= #[trigger] gains[i]
        &&& forall|i: int| 0 <= i < idx ==> gains[idx] < #[trigger] gains[i]
    }
}

/// A voice after the key of `note` is let go while the pedal is `down`.
pub open spec fn released(v: VoiceKeys, note: u8, pedal_down: bool) -> VoiceKeys {
    if v.active && v.note == note && v.key_down {
        VoiceKeys { key_down: false, sustained: if pedal_down {
            true
        } else {
            v.sustained
        }, ..v }
    } else {
        v
    }
}

/// A voice after the pedal is let go.
pub open spec fn unsustained(v: VoiceKeys) -> VoiceKeys {
    if v.active && !v.key_down && v.sustained {
        VoiceKeys { sustained: false, ..v }
    } else {
        v
    }
}

/// A voice that nothing holds and whose gain `gain` has died away is given
/// up.
pub open spec fn reclaimed(v: VoiceKeys, gain: u32) -> VoiceKeys {
    if v.active && !v.key_down && !v.sustained && gain < BITS_SILENT_GAIN {
        VoiceKeys::idle()
    } else {
        v
    }
}

/// The voices of a bus as a mathematical value.
pub struct BusVoicesView {
    pub sustain_down: bool,
    pub note_counter: u64,
    pub voices: Seq<VoiceKeys>,
}

/// The keys and the pedal of the voices of one bus.
pub struct BusVoices {
    sustain_down: bool,
    note_counter: u64,
    voices: Vec<VoiceKeys>,
}

impl BusVoices {
    pub closed spec fn view(&self) -> BusVoicesView {
        BusVoicesView {
            sustain_down: self.sustain_down,
            note_counter: self.note_counter,
            voices: self.voices@,
        }
    }

    pub open spec fn wf(&self) -> bool {
        self@.voices.len() == MAX_VOICES
    }

    /// Every voice inactive, the pedal up.
    pub fn new() -> (bus: BusVoices)
        ensures
            bus.wf(),
            !bus@.sustain_down,
            bus@.note_counter == 0,
            forall|i: int| 0 <= i < MAX_VOICES ==> #[trigger] bus@.voices[i] == VoiceKeys::idle(),
    {
        let mut voices: Vec<VoiceKeys> = Vec::new();
        let mut i: usize = 0;
        while i < MAX_VOICES
            invariant
                i <= MAX_VOICES,
                voices@.len() == i,
                forall|j: int| 0 <= j < i ==> #[trigger] voices@[j] == VoiceKeys::idle(),
            decreases MAX_VOICES - i,
        {
            voices.push(
                VoiceKeys { active: false, note: 0, key_down: false, sustained: false, age: 0 },
            );
            i = i + 1;
        }
        BusVoices { sustain_down: false, note_counter: 0, voices }
    }

    /// Back to every voice inactive and the pedal up.
    pub fn reset(&mut self)
        requires
            old(self).wf(),
        ensures
            final(self).wf(),
            !final(self)@.sustain_down,
            final(self)@.note_counter == 0,
            forall|i: int|
                0 <= i < MAX_VOICES ==> #[trigger] final(self)@.voices[i] == VoiceKeys::idle(),
    {
        self.sustain_down = false;
        self.note_counter = 0;
        let mut i: usize = 0;
        while i < MAX_VOICES
            invariant
                i <= MAX_VOICES,
                self.voices@.len() == MAX_VOICES,
                !self.sustain_down,
                self.note_counter == 0,
                forall|j: int| 0 <= j < i ==> #[trigger] self.voices@[j] == VoiceKeys::idle(),
            decreases MAX_VOICES - i,
        {
            self.voices[i] =
            VoiceKeys { active: false, note: 0, key_down: false, sustained: false, age: 0 };
            i = i + 1;
        }
    }

    /// The voice at `idx`.
    pub fn voice(&self, idx: usize) -> (v: VoiceKeys)
        requires
            self.wf(),
            idx < MAX_VOICES,
        ensures
            v == self@.voices[idx as int],
    {
        self.voices[idx]
    }

    /// Whether the pedal is down.
    pub fn sustain_down(&self) -> (down: bool)
        ensures
            down == self@.sustain_down,
    {
        self.sustain_down
    }

    /// The voice for a new note, given the gain of every voice as the bit
    /// pattern of a number that is not negative.
    pub fn allocate_voice(&self, gains: &[u32]) -> (idx: usize)
        requires
            self.wf(),
            are_gains(gains@),
        ensures
            is_allocated(self@.voices, gains@, idx as int),
    {
        let mut i: usize = 0;
        while i < MAX_VOICES
            invariant
                i <= MAX_VOICES,
                self.voices@.len() == MAX_VOICES,
                forall|j: int| 0 <= j < i ==> (#[trigger] self.voices@[j]).active,
            decreases MAX_VOICES - i,
        {
            if !self.voices[i].active {
                return i;
            }
            i = i + 1;
        }
        let mut best_idx: usize = 0;
        let mut best_gain: u32 = gains[0];
        let mut k: usize = 1;
        while k < MAX_VOICES
            invariant
                1 <= k <= MAX_VOICES,
                gains@.len() == MAX_VOICES,
                best_idx < k,
                best_gain == gains@[best_idx as int],
                forall|j: int| 0 <= j < k ==> best_gain <= #[trigger] gains@[j],
                forall|j: int| 0 <= j < best_idx ==> best_gain < #[trigger] gains@[j],
            decreases MAX_VOICES - k,
        {
            if gains[k] < best_gain {
                best_idx = k;
                best_gain = gains[k];
            }
            k = k + 1;
        }
        best_idx
    }

    /// A key goes down: the note takes a voice, which rings, and is the
    /// youngest. Hands back the voice taken.
    pub fn note_on(&mut self, note: u8, gains: &[u32]) -> (idx: usize)
        requires
            old(self).wf(),
            are_gains(gains@),
        ensures
            final(self).wf(),
            is_allocated(old(self)@.voices, gains@, idx as int),
            final(self)@.sustain_down == old(self)@.sustain_down,
            final(self)@.note_counter == (if old(self)@.note_counter == u64::MAX {
                0
            } else {
                (old(self)@.note_counter + 1) as u64
            }),
            final(self)@.voices == old(self)@.voices.update(
                idx as int,
                VoiceKeys {
                    active: true,
                    note,
                    key_down: true,
                    sustained: false,
                    age: final(self)@.note_counter,
                },
            ),
            final(self)@.voices[idx as int].phase() == VoicePhase::Ringing,
    {
        self.note_counter = if self.note_counter == u64::MAX {
            0
        } else {
            self.note_counter + 1
        };
        let idx = self.allocate_voice(gains);
        self.voices[idx] =
        VoiceKeys { active: true, note, key_down: true, sustained: false, age: self.note_counter };
        idx
    }

    /// A key goes up: the voices that ring with its note are let go; the
    /// pedal holds them if it is down.
    pub fn note_off(&mut self, note: u8)
        requires
            old(self).wf(),
        ensures
            final(self).wf(),
            final(self)@.sustain_down == old(self)@.sustain_down,
            final(self)@.note_counter == old(self)@.note_counter,
            forall|i: int|
                0 <= i < MAX_VOICES ==> #[trigger] final(self)@.voices[i] == released(
                    old(self)@.voices[i],
                    note,
                    old(self)@.sustain_down,
                ),
    {
        let mut i: usize = 0;
        while i < MAX_VOICES
            invariant
                i <= MAX_VOICES,
                self.voices@.len() == MAX_VOICES,
                self.sustain_down == old(self).sustain_down,
                self.note_counter == old(self).note_counter,
                forall|j: int|
                    0 <= j < i ==> #[trigger] self.voices@[j] == released(
                        old(self).voices@[j],
                        note,
                        self.sustain_down,
                    ),
                forall|j: int| i <= j < MAX_VOICES ==> #[trigger] self.voices@[j] == old(
                    self,
                ).voices@[j],
            decreases MAX_VOICES - i,
        {
            let v = self.voices[i];
            if v.active && v.note == note && v.key_down {
                self.voices[i] = VoiceKeys {
                    active: v.active,
                    note: v.note,
                    key_down: false,
                    sustained: if self.sustain_down {
                        true
                    } else {
                        v.sustained
                    },
                    age: v.age,
                };
            }
            i = i + 1;
        }
    }

    /// The pedal goes down or up: when it goes up, what it held is let go.
    pub fn sustain(&mut self, down: bool)
        requires
            old(self).wf(),
        ensures
            final(self).wf(),
            final(self)@.sustain_down == down,
            final(self)@.note_counter == old(self)@.note_counter,
            down ==> final(self)@.voices == old(self)@.voices,
            !down ==> forall|i: int|
                0 <= i < MAX_VOICES ==> #[trigger] final(self)@.voices[i] == unsustained(
                    old(self)@.voices[i],
                ),
    {
        self.sustain_down = down;
        if down {
            return ;
        }
        let mut i: usize = 0;
        while i < MAX_VOICES
            invariant
                i <= MAX_VOICES,
                self.voices@.len() == MAX_VOICES,
                self.sustain_down == down,
                self.note_counter == old(self).note_counter,
                forall|j: int|
                    0 <= j < i ==> #[trigger] self.voices@[j] == unsustained(old(self).voices@[j]),
                forall|j: int| i <= j < MAX_VOICES ==> #[trigger] self.voices@[j] == old(
                    self,
                ).voices@[j],
            decreases MAX_VOICES - i,
        {
            let v = self.voices[i];
            if v.active && !v.key_down && v.sustained {
                self.voices[i] = VoiceKeys {
                    active: v.active,
                    note: v.note,
                    key_down: v.key_down,
                    sustained: false,
                    age: v.age,
                };
            }
            i = i + 1;
        }
    }

    /// Gives up the voices that nothing holds and that have died away,
    /// given the gain of every voice.
    pub fn reclaim(&mut self, gains: &[u32])
        requires
            old(self).wf(),
            are_gains(gains@),
        ensures
            final(self).wf(),
            final(self)@.sustain_down == old(self)@.sustain_down,
            final(self)@.note_counter == old(self)@.note_counter,
            forall|i: int|
                0 <= i < MAX_VOICES ==> #[trigger] final(self)@.voices[i] == reclaimed(
                    old(self)@.voices[i],
                    gains@[i],
                ),
    {
        let mut i: usize = 0;
        while i < MAX_VOICES
            invariant
                i <= MAX_VOICES,
                self.voices@.len() == MAX_VOICES,
                gains@.len() == MAX_VOICES,
                self.sustain_down == old(self).sustain_down,
                self.note_counter == old(self).note_counter,
                forall|j: int|
                    0 <= j < i ==> #[trigger] self.voices@[j] == reclaimed(
                        old(self).voices@[j],
                        gains@[j],
                    ),
                forall|j: int| i <= j < MAX_VOICES ==> #[trigger] self.voices@[j] == old(
                    self,
                ).voices@[j],
            decreases MAX_VOICES - i,
        {
            let v = self.voices[i];
            if v.active && !v.key_down && !v.sustained && gains[i] < BITS_SILENT_GAIN {
                self.voices[i] =
                VoiceKeys { active: false, note: 0, key_down: false, sustained: false, age: 0 };
            }
            i = i + 1;
        }
    }
}

} // verus!
