//! Plain data shared by every component, and the capability interfaces of the
//! collaborators that surround the core.

pub mod audio;
pub mod midi;
pub mod omr;
pub mod playback;
pub mod storage;
pub mod synth;
pub mod types;
