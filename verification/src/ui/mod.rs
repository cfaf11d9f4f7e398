//! The decisions behind the user interface: how PipeWire events change the
//! state, and what the mixer asks of PipeWire in return.
pub mod app;
pub mod channel_strip;
pub mod matrix_view;
pub mod mixer_view;
