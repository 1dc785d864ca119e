//! A voice-journal audio core: clips of mono audio held as fixed-point
//! samples, a linear-interpolation resampler, capture and playback session
//! state machines, and a fixed-width byte codec for persisted sample buffers.

pub mod capture;
pub mod clip;
pub mod codec;
pub mod commands;
pub mod config;
pub mod playback;
pub mod resample;
