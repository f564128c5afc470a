//! A real-time audio mixer core: the mixer state model, the bounded
//! control and meter channels, and the per-block routing decisions.
//!
//! Levels are integers throughout. A volume is a signed count of
//! thousandths of a decibel; a peak is an unsigned count of millionths of
//! full scale; a point in time is a count of milliseconds on a monotonic
//! clock that the embedding program reads.

pub mod channel;
pub mod config;
pub mod console;
pub mod engine;
pub mod ipc;
pub mod layout;
pub mod routing;
