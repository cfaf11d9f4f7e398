//! Verified core of a PipeWire virtual mixer: the audio graph model, the
//! persisted mixer configuration, routing decisions and the state machine
//! that reacts to PipeWire events.
pub mod listed;
pub mod model;
pub mod order;
pub mod sorting;
pub mod pw;
pub mod startup;
pub mod text;
pub mod tray;
pub mod ui;
