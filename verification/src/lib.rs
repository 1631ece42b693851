//! Chess game analysis: game model, move classification, tactic detection,
//! position cache, engine-output interpretation and annotated PGN export.

pub mod text;
pub mod model;
pub mod annotations;
pub mod tactics;
pub mod cache;
pub mod pgn;
pub mod engine;
pub mod scheduler;
pub mod exporter;
pub mod config;
pub mod chess;
pub mod features;
