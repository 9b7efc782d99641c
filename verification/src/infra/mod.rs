//! What the adapters around the core decide before they reach a device, a
//! file or a child process.

pub mod audio_select;
pub mod file_names;
pub mod midi_input;
pub mod omr;
pub mod paths;
pub mod storage;
