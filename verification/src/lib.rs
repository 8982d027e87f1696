//! Capture-analyse-act core of a screen-watching input automaton, with the
//! hotkey bindings and the settings text of its shell.

pub mod driver;
pub mod hotkey;
pub mod keys;
pub mod policy;
pub mod region;
pub mod sample;
pub mod settings;
pub mod signal;
