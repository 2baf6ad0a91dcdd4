//! A keystroke-to-sound dispatch engine: key classification, preset
//! catalog, device resolution and the dispatch state machine.
pub mod keys;
pub mod preset;
pub mod device;
pub mod engine;
pub mod prefs;
