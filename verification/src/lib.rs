//! Baldur's Gate 3 save analysis: the models, parsers and decisions behind the
//! save explorer and the storyline overlay.
pub mod cli;
pub mod error;
pub mod export;
pub mod ipc;
pub mod json;
pub mod keyed;
pub mod lsf;
pub mod models;
pub mod overlay;
pub mod package;
pub mod party;
pub mod scanner;
pub mod search;
pub mod storylines;
pub mod text;
