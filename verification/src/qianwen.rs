//! The Qianwen voice input runtime: what it offers, how its live session runs,
//! what it reports and where it is found.

pub mod live;
pub mod place;
pub mod report;
pub mod session;
