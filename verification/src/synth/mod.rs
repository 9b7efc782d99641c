//! What the keys and the pedal decide for the voices of the piano, apart
//! from the sound itself.

pub mod soundboard;
pub mod voices;
