use crate::ports::storage::SettingsDto;
use crate::ports::types::{Bus, Volume01, BITS_ZERO};
use vstd::prelude::*;

verus! {

/// The mixer's parameters as the audio callback reads them: volumes as bit
/// patterns of single-precision numbers, and the two switches.
#[derive(Clone, Copy, Debug)]
pub struct AudioParams {
    master: u32,
    bus_user: u32,
    bus_autopilot: u32,
    bus_metronome: u32,
    monitor_enabled: bool,
    playback_enabled: bool,
}

/// The parameters as a mathematical value.
pub struct AudioParamsView {
    pub master: u32,
    pub bus_user: u32,
    pub bus_autopilot: u32,
    pub bus_metronome: u32,
    pub monitor_enabled: bool,
    pub playback_enabled: bool,
}

impl AudioParamsView {
    /// The parameters of `settings`, with playback disabled.
    pub open spec fn of_settings(settings: SettingsDto) -> AudioParamsView {
        AudioParamsView {
            master: settings.master_volume@,
            bus_user: settings.bus_user_volume@,
            bus_autopilot: settings.bus_autopilot_volume@,
            bus_metronome: settings.bus_metronome_volume@,
            monitor_enabled: settings.monitor_enabled,
            playback_enabled: false,
        }
    }

    /// The volume set for `bus`, whether it is audible or not.
    pub open spec fn bus_setting(self, bus: Bus) -> u32 {
        match bus {
            Bus::UserMonitor => self.bus_user,
            Bus::Autopilot => self.bus_autopilot,
            Bus::MetronomeFx => self.bus_metronome,
        }
    }

    /// The gain of `bus`: zero for a score-driven bus while playback is
    /// disabled, else the volume set for it.
    pub open spec fn bus(self, bus: Bus) -> u32 {
        if !self.playback_enabled && bus.is_score_driven() {
            BITS_ZERO
        } else {
            self.bus_setting(bus)
        }
    }

    pub open spec fn with_bus(self, bus: Bus, bits: u32) -> AudioParamsView {
        match bus {
            Bus::UserMonitor => AudioParamsView { bus_user: bits, ..self },
            Bus::Autopilot => AudioParamsView { bus_autopilot: bits, ..self },
            Bus::MetronomeFx => AudioParamsView { bus_metronome: bits, ..self },
        }
    }
}

impl AudioParams {
    pub closed spec fn view(&self) -> AudioParamsView {
        AudioParamsView {
            master: self.master,
            bus_user: self.bus_user,
            bus_autopilot: self.bus_autopilot,
            bus_metronome: self.bus_metronome,
            monitor_enabled: self.monitor_enabled,
            playback_enabled: self.playback_enabled,
        }
    }

    /// The parameters of `settings`, with playback disabled.
    pub fn new(settings: &SettingsDto) -> (params: AudioParams)
        ensures
            params@ == AudioParamsView::of_settings(*settings),
    {
        AudioParams {
            master: settings.master_volume.get(),
            bus_user: settings.bus_user_volume.get(),
            bus_autopilot: settings.bus_autopilot_volume.get(),
            bus_metronome: settings.bus_metronome_volume.get(),
            monitor_enabled: settings.monitor_enabled,
            playback_enabled: false,
        }
    }

    pub fn set_master(&mut self, volume: Volume01)
        ensures
            final(self)@ == (AudioParamsView { master: volume@, ..old(self)@ }),
    {
        self.master = volume.get();
    }

    pub fn set_bus(&mut self, bus: Bus, volume: Volume01)
        ensures
            final(self)@ == old(self)@.with_bus(bus, volume@),
    {
        match bus {
            Bus::UserMonitor => {
                self.bus_user = volume.get();
            },
            Bus::Autopilot => {
                self.bus_autopilot = volume.get();
            },
            Bus::MetronomeFx => {
                self.bus_metronome = volume.get();
            },
        }
    }

    pub fn set_monitor_enabled(&mut self, enabled: bool)
        ensures
            final(self)@ == (AudioParamsView { monitor_enabled: enabled, ..old(self)@ }),
    {
        self.monitor_enabled = enabled;
    }

    pub fn set_playback_enabled(&mut self, enabled: bool)
        ensures
            final(self)@ == (AudioParamsView { playback_enabled: enabled, ..old(self)@ }),
    {
        self.playback_enabled = enabled;
    }

    /// Bit pattern of the master volume.
    pub fn master(&self) -> (bits: u32)
        ensures
            bits == self@.master,
    {
        self.master
    }

    /// Bit pattern of the gain of `bus`: zero for a score-driven bus while
    /// playback is disabled.
    pub fn bus(&self, bus: Bus) -> (bits: u32)
        ensures
            bits == self@.bus(bus),
    {
        if !self.playback_enabled && bus.score_driven() {
            return BITS_ZERO;
        }
        match bus {
            Bus::UserMonitor => self.bus_user,
            Bus::Autopilot => self.bus_autopilot,
            Bus::MetronomeFx => self.bus_metronome,
        }
    }

    pub fn monitor_enabled(&self) -> (enabled: bool)
        ensures
            enabled == self@.monitor_enabled,
    {
        self.monitor_enabled
    }

    pub fn playback_enabled(&self) -> (enabled: bool)
        ensures
            enabled == self@.playback_enabled,
    {
        self.playback_enabled
    }
}

} // verus!
