//! Real-time core of a piano practice application: tempo-mapped transport,
//! look-ahead scheduler, timing-window judge and the event ordering of the
//! audio callback, with their contracts proved.

pub mod ports;
pub mod sorting;
pub mod text;
pub mod synth;
pub mod score;
pub mod eval;
pub mod engine;
pub mod infra;
