//! The mixer's own model: its configuration, its runtime state and the
//! routing rules that turn routes into port links.
pub mod bus;
pub mod config;
pub mod routing;
pub mod state;
pub mod strip;
