//! Verified core of a studio hardware control daemon: MIDI message
//! decoding, per-device activity tracking, chord recognition and the
//! daemon's connection and command decisions.

pub mod activity;
pub mod chord;
pub mod clock;
pub mod laws;
pub mod midi;
pub mod notes;
pub mod ports;
pub mod protocol;
pub mod state;
pub mod text;
