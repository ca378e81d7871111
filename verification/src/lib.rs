pub mod types;
pub mod sequencer;
pub mod file;
pub mod kits;
pub mod asid;
pub mod midi;
pub mod engine;
pub mod sample;
pub mod theme;
