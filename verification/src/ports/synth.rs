use vstd::prelude::*;

verus! {

#[derive(Clone, Debug)]
pub enum SynthError {
    SoundFontLoad(String),
    UnsupportedFormat,
    Backend(String),
}

#[derive(Clone, Debug)]
pub struct SoundFontInfo {
    pub name: String,
    pub preset_count: usize,
}

} // verus!
