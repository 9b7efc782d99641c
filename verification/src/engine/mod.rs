//! The timing core: transport and tempo map, scheduler, audio parameters
//! and the event ordering of the audio callback.

pub mod audio_graph;
pub mod audio_graph_laws;
pub mod app;
pub mod app_support;
pub mod audio_params;
pub mod demo;
pub mod ipc;
pub mod playback_engine;
pub mod queue;
pub mod timebase;
pub mod transport;
pub mod scheduler;
pub mod score_view;
pub mod scheduler_laws;
pub mod timing_laws;
