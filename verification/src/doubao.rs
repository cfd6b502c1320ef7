//! The Doubao input method's speech recognition.

pub mod account;
pub mod live;
pub mod protocol;
pub mod sound;
pub mod wire;
