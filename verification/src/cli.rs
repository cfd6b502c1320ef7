//! The command line tools: what their options mean, what they report, how they
//! show live captions, and how they serve and manage providers.

pub mod answer;
pub mod archive;
pub mod args;
pub mod captions;
pub mod external;
pub mod fetch;
pub mod health;
pub mod installed;
pub mod listing;
pub mod log;
pub mod npm;
pub mod packages;
pub mod place;
pub mod print;
pub mod profile;
pub mod provider;
pub mod render;
pub mod report;
pub mod serve;
pub mod update;
