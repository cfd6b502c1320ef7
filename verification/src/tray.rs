//! The tray: a menu and a panel that choose a live provider and run it.
pub mod app;
pub mod look;
pub mod state;
