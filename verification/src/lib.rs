//! Event-driven harmonic-state engine.
//!
//! The engine tracks the set of musical pitches currently sounding (derived
//! from note-on / note-off events) and incrementally derives higher-level
//! harmonic structures from that set: one candidate chord per active tone
//! treated as root, pitch-class groupings, candidate scales, and an active
//! pitch window around the played cluster.

pub mod bounds;
pub mod harmony;
pub mod pitch;
pub mod registry;
pub mod sequence;
pub mod subsequence;
