use crate::ports::types::{DeviceId, Volume01};
use vstd::prelude::*;

verus! {

/// Bit pattern of the single-precision number nearest to 0.8.
pub const BITS_DEFAULT_VOLUME: u32 = 0x3f4c_cccd;

/// Bit pattern of the single-precision number nearest to 0.6.
pub const BITS_DEFAULT_METRONOME_VOLUME: u32 = 0x3f19_999a;

#[derive(Clone, Debug)]
pub enum StorageError {
    Io(String),
    Serde(String),
}

/// What is kept between sessions.
#[derive(Clone, Debug)]
pub struct SettingsDto {
    pub selected_midi_in: Option<DeviceId>,
    pub selected_audio_out: Option<DeviceId>,
    pub audio_buffer_size_frames: Option<u32>,
    pub monitor_enabled: bool,
    pub master_volume: Volume01,
    pub bus_user_volume: Volume01,
    pub bus_autopilot_volume: Volume01,
    pub bus_metronome_volume: Volume01,
    pub input_offset_ms: i32,
    pub default_sf2_path: Option<String>,
    pub audiveris_path: Option<String>,
}

/// The monitor is on unless the settings say otherwise.
pub fn default_monitor_enabled() -> (enabled: bool)
    ensures
        enabled,
{
    true
}

impl Default for SettingsDto {
    /// Nothing selected, the monitor on, volumes at 0.8 and the metronome
    /// at 0.6, no input offset.
    fn default() -> (settings: SettingsDto)
        ensures
            settings.selected_midi_in is None,
            settings.selected_audio_out is None,
            settings.audio_buffer_size_frames is None,
            settings.monitor_enabled,
            settings.master_volume@ == BITS_DEFAULT_VOLUME,
            settings.bus_user_volume@ == BITS_DEFAULT_VOLUME,
            settings.bus_autopilot_volume@ == BITS_DEFAULT_VOLUME,
            settings.bus_metronome_volume@ == BITS_DEFAULT_METRONOME_VOLUME,
            settings.input_offset_ms == 0,
            settings.default_sf2_path is None,
            settings.audiveris_path is None,
    {
        SettingsDto {
            selected_midi_in: None,
            selected_audio_out: None,
            audio_buffer_size_frames: None,
            monitor_enabled: default_monitor_enabled(),
            master_volume: Volume01::new(BITS_DEFAULT_VOLUME),
            bus_user_volume: Volume01::new(BITS_DEFAULT_VOLUME),
            bus_autopilot_volume: Volume01::new(BITS_DEFAULT_VOLUME),
            bus_metronome_volume: Volume01::new(BITS_DEFAULT_METRONOME_VOLUME),
            input_offset_ms: 0,
            default_sf2_path: None,
            audiveris_path: None,
        }
    }
}

/// Where the settings are kept between sessions.
pub trait StoragePort: Send + Sync {
    fn load_settings(&self) -> Result<SettingsDto, StorageError>;

    fn save_settings(&self, s: &SettingsDto) -> Result<(), StorageError>;
}

} // verus!
