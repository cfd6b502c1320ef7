//! Speech-to-text tooling: providers, live captions, provider packages and the
//! rules that tie them together, each with its contract.

pub mod adapter;
pub mod asr;
pub mod audio;
pub mod cli;
pub mod doubao;
pub mod endpoint;
pub mod event;
pub mod json;
pub mod jsonl;
pub mod openai;
pub mod path;
pub mod qianwen;
pub mod table;
pub mod text;
pub mod tray;
pub mod vo;
pub mod web;
