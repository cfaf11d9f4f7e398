//! The system tray icon: what it is called and what its menu offers.

pub mod service;
